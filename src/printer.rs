//! Lines of description text, with the indentation rule for nested blocks.

use vstd::prelude::*;

use crate::text::{chars_of, deep, push_all, string_of};

verus! {

/// One line placed inside a block: two spaces before it, and a comma after
/// it unless it ends with a comma or opens a block.
pub open spec fn indent_line(l: Seq<char>) -> Seq<char> {
    seq![' ', ' '] + l + if l.len() > 0 && (l.last() == ',' || l.last() == '{') {
        Seq::empty()
    } else {
        seq![',']
    }
}

/// Every line placed inside a block.
pub open spec fn indent(ls: Seq<Seq<char>>) -> Seq<Seq<char>> {
    ls.map_values(|l: Seq<char>| indent_line(l))
}

/// A block: its opening line, the lines inside it, and `}`.
pub open spec fn block(head: Seq<char>, inner: Seq<Seq<char>>) -> Seq<Seq<char>> {
    seq![head] + indent(inner) + seq![seq!['}']]
}

/// The lines, each ended by a line feed.
pub open spec fn render_lines(ls: Seq<Seq<char>>) -> Seq<char>
    decreases ls.len(),
{
    if ls.len() == 0 {
        Seq::empty()
    } else {
        render_lines(ls.drop_last()) + ls.last() + seq!['\n']
    }
}

/// Lines of description text.
pub struct Printer {
    out: Vec<Vec<char>>,
}

impl View for Printer {
    type V = Seq<Seq<char>>;

    closed spec fn view(&self) -> Seq<Seq<char>> {
        deep(self.out@)
    }
}

/// One line placed inside a block.
pub fn indent_line_of(l: &Vec<char>) -> (r: Vec<char>)
    ensures
        r@ == indent_line(l@),
{
    let mut r: Vec<char> = Vec::new();
    r.push(' ');
    r.push(' ');
    push_all(&mut r, l);
    let n = l.len();
    if !(n > 0 && (l[n - 1] == ',' || l[n - 1] == '{')) {
        r.push(',');
    }
    assert(r@ =~= indent_line(l@));
    r
}

impl Printer {
    /// A printer with no lines.
    pub fn new() -> (r: Printer)
        ensures
            r@ == Seq::<Seq<char>>::empty(),
    {
        let r = Printer { out: Vec::new() };
        assert(r@ =~= Seq::<Seq<char>>::empty());
        r
    }

    /// The lines of `indented`, placed inside a block, after the lines so far.
    pub fn append(&mut self, indented: &Printer)
        ensures
            final(self)@ == old(self)@ + indent(indented@),
    {
        let mut i: usize = 0;
        while i < indented.out.len()
            invariant
                i <= indented.out@.len(),
                self@ == old(self)@ + indent(indented@.take(i as int)),
            decreases indented.out@.len() - i,
        {
            let line = indent_line_of(&indented.out[i]);
            self.push_line(line);
            i = i + 1;
            assert(indent(indented@.take(i as int)) =~= indent(indented@.take(i - 1)).push(
                indent_line(indented@[i - 1]),
            ));
        }
        assert(indented@.take(i as int) =~= indented@);
    }

    /// One more line.
    pub fn println(&mut self, line: String)
        ensures
            final(self)@ == old(self)@.push(line@),
    {
        self.push_line(chars_of(line.as_str()));
    }

    /// One more line, given as characters.
    pub fn push_line(&mut self, line: Vec<char>)
        ensures
            final(self)@ == old(self)@.push(line@),
    {
        let ghost before = self.out@;
        self.out.push(line);
        assert(deep(self.out@) =~= deep(before).push(line@));
    }

    /// Several more lines.
    pub fn push_lines(&mut self, lines: Vec<Vec<char>>)
        ensures
            final(self)@ == old(self)@ + deep(lines@),
    {
        let mut i: usize = 0;
        let mut lines = lines;
        let ghost all = deep(lines@);
        while i < lines.len()
            invariant
                i <= lines@.len(),
                all == deep(lines@),
                self@ == old(self)@ + all.take(i as int),
            decreases lines@.len() - i,
        {
            let mut l: Vec<char> = Vec::new();
            push_all(&mut l, &lines[i]);
            self.push_line(l);
            i = i + 1;
            assert(all.take(i as int) =~= all.take(i - 1).push(all[i - 1]));
        }
        assert(all.take(i as int) =~= all);
    }

    /// The lines, as characters.
    pub fn into_lines(self) -> (r: Vec<Vec<char>>)
        ensures
            deep(r@) == self@,
    {
        self.out
    }

    /// The lines, each ended by a line feed.
    pub fn render(&self) -> (r: String)
        ensures
            r@ == render_lines(self@),
    {
        let mut text: Vec<char> = Vec::new();
        let mut i: usize = 0;
        while i < self.out.len()
            invariant
                i <= self.out@.len(),
                text@ == render_lines(self@.take(i as int)),
            decreases self.out@.len() - i,
        {
            push_all(&mut text, &self.out[i]);
            text.push('\n');
            i = i + 1;
            assert(self@.take(i as int).drop_last() =~= self@.take(i - 1));
        }
        assert(self@.take(i as int) =~= self@);
        string_of(&text)
    }
}

} // verus!
