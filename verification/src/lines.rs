use vstd::prelude::*;
use vstd::std_specs::iter::IteratorSpec;

verus! {

/// The views of a sequence of lines, in order.
pub open spec fn line_views(s: Seq<String>) -> Seq<Seq<char>> {
    Seq::new(s.len(), |i: int| s[i]@)
}

/// A line without the carriage return that may precede its line feed.
pub open spec fn strip_cr(line: Seq<char>) -> Seq<char> {
    if line.len() > 0 && line.last() == '\r' {
        line.drop_last()
    } else {
        line
    }
}

/// The state of reading a text up to some point: the lines that a line feed
/// has ended, and the characters read since the last line feed.
pub struct Scan {
    pub done: Seq<Seq<char>>,
    pub open: Seq<char>,
}

/// Reading `text` from its start to its end, one character at a time: a
/// line feed ends the line read so far, any other character joins it.
pub open spec fn scan(text: Seq<char>) -> Scan
    decreases text.len(),
{
    if text.len() == 0 {
        Scan { done: Seq::empty(), open: Seq::empty() }
    } else {
        let before = scan(text.drop_last());
        if text.last() == '\n' {
            Scan { done: before.done.push(strip_cr(before.open)), open: Seq::empty() }
        } else {
            Scan { done: before.done, open: before.open.push(text.last()) }
        }
    }
}

/// The lines of a text: what stands between its line feeds, each without
/// the carriage return that may precede the line feed, and what follows the
/// last line feed unless that is nothing.
pub open spec fn lines_of(text: Seq<char>) -> Seq<Seq<char>> {
    let s = scan(text);
    if s.open.len() == 0 {
        s.done
    } else {
        s.done.push(s.open)
    }
}

/// Collects characters into a string with std's `String::from_iter`.
/// Trusted: the string holds the characters of `chars`, in their order.
#[verifier::external_body]
fn string_of(chars: &Vec<char>) -> (r: String)
    ensures
        r@ == chars@,
{
    String::from_iter(chars.iter())
}

/// Splits a text into its lines.
pub fn split_lines(text: &str) -> (r: Vec<String>)
    ensures
        line_views(r@) == lines_of(text@),
{
    let mut done: Vec<String> = Vec::new();
    let mut open: Vec<char> = Vec::new();
    let mut rest = text.chars();
    let ghost mut read: Seq<char> = Seq::empty();
    assert(line_views(done@) =~= Seq::<Seq<char>>::empty());
    loop
        invariant
            read + rest.remaining() == text@,
            scan(read) == (Scan { done: line_views(done@), open: open@ }),
            rest.decrease() is Some,
        ensures
            read == text@,
        decreases rest.decrease()->0,
    {
        let ghost before = rest;
        let ghost lines_before = line_views(done@);
        let next = rest.next();
        match next {
            Some(c) => {
                proof {
                    assert(before.remaining().len() > 0);
                    assert(c == before.remaining()[0]);
                    assert(read.push(c) + rest.remaining() =~= read + before.remaining());
                    assert(read.push(c).drop_last() =~= read);
                    read = read.push(c);
                }
                if c == '\n' {
                    let n = open.len();
                    if n > 0 && open[n - 1] == '\r' {
                        open.pop();
                    }
                    let line = string_of(&open);
                    done.push(line);
                    open = Vec::new();
                    assert(line_views(done@) =~= lines_before.push(line@));
                } else {
                    open.push(c);
                }
            },
            None => {
                proof {
                    assert(before.remaining().len() == 0);
                    assert(read =~= text@);
                }
                break;
            },
        }
    }
    if open.len() > 0 {
        let ghost lines_before = line_views(done@);
        let line = string_of(&open);
        done.push(line);
        assert(line_views(done@) =~= lines_before.push(line@));
    }
    done
}

/// Whether `text` holds no line feed.
pub open spec fn no_line_feed(text: Seq<char>) -> bool {
    forall|i: int| 0 <= i < text.len() ==> text[i] != '\n'
}

proof fn lemma_scan_without_line_feed(text: Seq<char>)
    requires
        no_line_feed(text),
    ensures
        scan(text).done == Seq::<Seq<char>>::empty(),
        scan(text).open == text,
    decreases text.len(),
{
    if text.len() > 0 {
        lemma_scan_without_line_feed(text.drop_last());
        assert(text.drop_last().push(text.last()) =~= text);
    } else {
        assert(scan(text).open =~= text);
    }
}

proof fn lemma_scan_after_line_feed(head: Seq<char>, tail: Seq<char>)
    requires
        head.len() > 0,
        head.last() == '\n',
    ensures
        scan(head + tail).done == scan(head).done + scan(tail).done,
        scan(head + tail).open == scan(tail).open,
    decreases tail.len(),
{
    if tail.len() == 0 {
        assert(head + tail =~= head);
        assert(scan(head).done + scan(tail).done =~= scan(head).done);
    } else {
        lemma_scan_after_line_feed(head, tail.drop_last());
        assert((head + tail).drop_last() =~= head + tail.drop_last());
        assert((head + tail).last() == tail.last());
        let before = scan(tail.drop_last());
        if tail.last() == '\n' {
            assert(scan(head).done + before.done.push(strip_cr(before.open)) =~= (scan(head).done
                + before.done).push(strip_cr(before.open)));
        }
    }
}

proof fn lemma_scan_holds_no_line_feed(text: Seq<char>)
    ensures
        no_line_feed(scan(text).open),
        forall|i: int| 0 <= i < scan(text).done.len() ==> no_line_feed(#[trigger] scan(text).done[i]),
    decreases text.len(),
{
    if text.len() > 0 {
        lemma_scan_holds_no_line_feed(text.drop_last());
    }
}

/// A text without a line feed is one line, and the empty text has none.
pub proof fn law_text_without_line_feed(text: Seq<char>)
    requires
        no_line_feed(text),
    ensures
        text.len() > 0 ==> lines_of(text) == seq![text],
        text.len() == 0 ==> lines_of(text) == Seq::<Seq<char>>::empty(),
{
    lemma_scan_without_line_feed(text);
    assert(Seq::<Seq<char>>::empty().push(text) =~= seq![text]);
}

/// A first line that a line feed ends is followed by the lines of the rest
/// of the text; it stands without its line feed and without a carriage
/// return before that.
pub proof fn law_first_line(first: Seq<char>, rest: Seq<char>)
    requires
        no_line_feed(first),
    ensures
        lines_of(first + seq!['\n'] + rest) == seq![strip_cr(first)] + lines_of(rest),
{
    let head = first + seq!['\n'];
    lemma_scan_without_line_feed(first);
    assert(head.drop_last() =~= first);
    assert(head.last() == '\n');
    assert(scan(head).done =~= seq![strip_cr(first)]);
    lemma_scan_after_line_feed(head, rest);
    let s = scan(rest);
    if s.open.len() > 0 {
        assert((seq![strip_cr(first)] + s.done).push(s.open) =~= seq![strip_cr(first)] + s.done.push(
            s.open,
        ));
    }
}

/// No line holds a line feed.
pub proof fn law_lines_hold_no_line_feed(text: Seq<char>)
    ensures
        forall|i: int| 0 <= i < lines_of(text).len() ==> no_line_feed(#[trigger] lines_of(text)[i]),
{
    lemma_scan_holds_no_line_feed(text);
}

} // verus!
