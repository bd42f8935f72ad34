//! The render context handed to the external template collaborator: a
//! flat list of named scalar fields plus the paste's text split into
//! numbered lines.

use vstd::prelude::*;
use vstd::string::StrSliceExecFns;

verus! {

/// The position of the first `\n` in `s`, or `s.len()` when there is none.
pub open spec fn newline_index(s: Seq<char>) -> int
    decreases s.len(),
{
    if s.len() == 0 {
        0
    } else if s[0] == '\n' {
        0
    } else {
        1 + newline_index(s.skip(1))
    }
}

pub proof fn lemma_newline_index(s: Seq<char>)
    ensures
        0 <= newline_index(s) <= s.len(),
        forall|j: int| 0 <= j < newline_index(s) ==> s[j] != '\n',
        newline_index(s) < s.len() ==> s[newline_index(s)] == '\n',
    decreases s.len(),
{
    if s.len() > 0 && s[0] != '\n' {
        lemma_newline_index(s.skip(1));
        assert forall|j: int| 0 <= j < newline_index(s) implies s[j] != '\n' by {
            if j > 0 {
                assert(s.skip(1)[j - 1] == s[j]);
            }
        }
        if newline_index(s) < s.len() {
            assert(s.skip(1)[newline_index(s) - 1] == s[newline_index(s)]);
        }
    }
}

/// The first `\n` of `s` is at `i` exactly when no earlier position holds
/// one; `i == s.len()` says there is none at all.
pub proof fn lemma_newline_index_is(s: Seq<char>, i: int)
    requires
        0 <= i <= s.len(),
        forall|j: int| 0 <= j < i ==> s[j] != '\n',
        i < s.len() ==> s[i] == '\n',
    ensures
        newline_index(s) == i,
    decreases s.len(),
{
    if i > 0 {
        assert(s[0] != '\n');
        assert forall|j: int| 0 <= j < i - 1 implies s.skip(1)[j] != '\n' by {
            assert(s.skip(1)[j] == s[j + 1]);
        }
        if i - 1 < s.len() - 1 {
            assert(s.skip(1)[i - 1] == s[i]);
        }
        lemma_newline_index_is(s.skip(1), i - 1);
    }
}

/// Drops a single trailing carriage return, if any: the remnant of a
/// `\r\n` terminator once the `\n` is cut off.
pub open spec fn strip_cr(t: Seq<char>) -> Seq<char> {
    if t.len() > 0 && t.last() == '\r' {
        t.drop_last()
    } else {
        t
    }
}

/// The lines of `s`: a line ends at `\n` or `\r\n`, the terminator is not
/// part of the line, and a final terminator opens no empty last line. A
/// `\r` not followed by `\n` stays in its line.
pub open spec fn spec_lines(s: Seq<char>) -> Seq<Seq<char>>
    decreases s.len(),
    via spec_lines_decreases
{
    if s.len() == 0 {
        Seq::empty()
    } else {
        let i = newline_index(s);
        if i == s.len() {
            seq![s]
        } else {
            seq![strip_cr(s.take(i))] + spec_lines(s.skip(i + 1))
        }
    }
}

#[via_fn]
proof fn spec_lines_decreases(s: Seq<char>) {
    lemma_newline_index(s);
}

/// Splits text into its lines, as `spec_lines` describes them.
pub fn split_lines(s: &str) -> (lines: Vec<String>)
    ensures
        lines@.map_values(|l: String| l@) == spec_lines(s@),
{
    let n = s.unicode_len();
    let mut lines: Vec<String> = Vec::new();
    let mut start: usize = 0;
    let mut i: usize = 0;
    proof {
        assert(lines@.map_values(|l: String| l@) =~= Seq::<Seq<char>>::empty());
        assert(s@.skip(0) =~= s@);
        assert(Seq::<Seq<char>>::empty() + spec_lines(s@) =~= spec_lines(s@));
    }
    while i < n
        invariant
            n == s@.len(),
            start <= i <= n,
            forall|j: int| start <= j < i ==> s@[j] != '\n',
            lines@.map_values(|l: String| l@) + spec_lines(s@.skip(start as int))
                == spec_lines(s@),
        decreases n - i,
    {
        let c = s.get_char(i);
        if c == '\n' {
            let stop = if i > start && s.get_char(i - 1) == '\r' {
                i - 1
            } else {
                i
            };
            let line = s.substring_char(start, stop).to_owned();
            proof {
                let tail = s@.skip(start as int);
                assert forall|j: int| 0 <= j < i - start implies tail[j] != '\n' by {
                    assert(tail[j] == s@[start + j]);
                }
                assert(tail[i - start] == s@[i as int]);
                lemma_newline_index_is(tail, i - start);
                assert(tail.take(i - start) =~= s@.subrange(start as int, i as int));
                assert(tail.skip(i - start + 1) =~= s@.skip(i as int + 1));
                if i > start && s@[i as int - 1] == '\r' {
                    assert(s@.subrange(start as int, i as int).last() == '\r');
                    assert(strip_cr(s@.subrange(start as int, i as int))
                        =~= s@.subrange(start as int, i as int - 1));
                } else {
                    assert(strip_cr(s@.subrange(start as int, i as int))
                        =~= s@.subrange(start as int, i as int));
                }
                assert(line@ == strip_cr(tail.take(i - start)));
                assert(spec_lines(tail) == seq![line@] + spec_lines(s@.skip(i as int + 1)));
                let f = |l: String| l@;
                assert(lines@.push(line).map_values(f)
                    =~= lines@.map_values(f).push(line@));
                assert(lines@.push(line).map_values(f) + spec_lines(s@.skip(i as int + 1))
                    =~= lines@.map_values(f) + spec_lines(tail));
            }
            lines.push(line);
            start = i + 1;
        }
        i = i + 1;
    }
    if start < n {
        let line = s.substring_char(start, n).to_owned();
        proof {
            let tail = s@.skip(start as int);
            assert forall|j: int| 0 <= j < tail.len() implies tail[j] != '\n' by {
                assert(tail[j] == s@[start + j]);
            }
            lemma_newline_index_is(tail, tail.len() as int);
            assert(tail =~= s@.subrange(start as int, n as int));
            assert(spec_lines(tail) == seq![tail]);
            let f = |l: String| l@;
            assert(lines@.push(line).map_values(f)
                =~= lines@.map_values(f).push(line@));
            assert(lines@.push(line).map_values(f)
                =~= lines@.map_values(f) + spec_lines(tail));
        }
        lines.push(line);
    } else {
        proof {
            assert(spec_lines(s@.skip(start as int)) =~= Seq::<Seq<char>>::empty());
            assert(lines@.map_values(|l: String| l@) + spec_lines(s@.skip(start as int))
                =~= lines@.map_values(|l: String| l@));
        }
    }
    lines
}

/// One numbered line of a paste, as the view renders it.
#[derive(Debug)]
pub struct Line {
    /// 1-based position of the line within the paste.
    pub index: usize,
    /// The line's text, without its terminator.
    pub line: String,
}

/// A render context: named scalar fields in insertion order, and the
/// paste's numbered lines.
#[derive(Debug)]
pub struct Paste {
    /// Named scalar fields, in insertion order; no name repeats.
    pub params: Vec<(String, String)>,
    /// The numbered lines of the paste's text.
    pub paste: Vec<Line>,
}

impl Paste {
    /// The named fields, as mathematical pairs.
    pub open spec fn params_view(&self) -> Seq<(Seq<char>, Seq<char>)> {
        self.params@.map_values(|kv: (String, String)| (kv.0@, kv.1@))
    }

    /// The numbered lines, as mathematical pairs.
    pub open spec fn lines_view(&self) -> Seq<(int, Seq<char>)> {
        self.paste@.map_values(|l: Line| (l.index as int, l.line@))
    }

    /// An empty context.
    pub fn new() -> (p: Paste)
        ensures
            p.params_view() == Seq::<(Seq<char>, Seq<char>)>::empty(),
            p.lines_view() == Seq::<(int, Seq<char>)>::empty(),
    {
        let p = Paste { params: Vec::new(), paste: Vec::new() };
        proof {
            assert(p.params_view() =~= Seq::<(Seq<char>, Seq<char>)>::empty());
            assert(p.lines_view() =~= Seq::<(int, Seq<char>)>::empty());
        }
        p
    }

    /// Appends the named field `key` with value `value`.
    pub fn add_param(&mut self, key: &str, value: &str)
        ensures
            final(self).params_view() == old(self).params_view().push((key@, value@)),
            final(self).paste == old(self).paste,
    {
        self.params.push((key.to_owned(), value.to_owned()));
        proof {
            assert(self.params_view() =~= old(self).params_view().push((key@, value@)));
        }
    }

    /// Appends line `line` under the 1-based number `index`.
    pub fn add_line(&mut self, index: usize, line: &str)
        ensures
            final(self).lines_view() == old(self).lines_view().push((index as int, line@)),
            final(self).params == old(self).params,
    {
        self.paste.push(Line { index, line: line.to_owned() });
        proof {
            assert(self.lines_view() =~= old(self).lines_view().push((index as int, line@)));
        }
    }
}

impl Default for Paste {
    /// An empty context.
    fn default() -> (p: Paste)
        ensures
            p.params_view() == Seq::<(Seq<char>, Seq<char>)>::empty(),
            p.lines_view() == Seq::<(int, Seq<char>)>::empty(),
    {
        Paste::new()
    }
}

} // verus!
