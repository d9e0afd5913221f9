use vstd::prelude::*;
use crate::lines::{line_views, lines_of, split_lines};
use crate::pattern::{find_label, find_link, label_of, link_of};
use crate::pdf::{opt_str_view, Pdf, PdfView};

verus! {

/// The view of an optional descriptor.
pub open spec fn opt_pdf_view(o: Option<Pdf>) -> Option<PdfView> {
    match o {
        Some(p) => Some(p@),
        None => None,
    }
}

/// The views of a sequence of descriptors, in order.
pub open spec fn pdf_views(s: Seq<Pdf>) -> Seq<PdfView> {
    Seq::new(s.len(), |i: int| s[i]@)
}

/// What the two searches of one line amount to: a descriptor exactly where
/// a link was found, carrying the label if one was found too.
pub open spec fn describe(link: Option<Seq<char>>, label: Option<Seq<char>>) -> Option<PdfView> {
    match link {
        Some(name) => Some(PdfView { no: label, name: name }),
        None => None,
    }
}

/// The descriptor that one line yields, if any.
pub open spec fn line_descriptor(line: Seq<char>) -> Option<PdfView> {
    describe(link_of(line), label_of(line))
}

/// What one line adds to the descriptors: one of them or nothing.
pub open spec fn line_yield(line: Seq<char>) -> Seq<PdfView> {
    match line_descriptor(line) {
        Some(d) => seq![d],
        None => Seq::empty(),
    }
}

/// The descriptors of a page, given as its lines: what each line yields, in
/// the order of the lines.
pub open spec fn extracted(lines: Seq<Seq<char>>) -> Seq<PdfView>
    decreases lines.len(),
{
    if lines.len() == 0 {
        Seq::empty()
    } else {
        extracted(lines.drop_last()) + line_yield(lines.last())
    }
}

/// The number of lines in which the link pattern matches.
pub open spec fn linked_lines(lines: Seq<Seq<char>>) -> nat
    decreases lines.len(),
{
    if lines.len() == 0 {
        0
    } else {
        linked_lines(lines.drop_last()) + if link_of(lines.last()) is Some {
            1nat
        } else {
            0nat
        }
    }
}

/// Whether some line of `lines` yields the descriptor `d`.
pub open spec fn comes_from(d: PdfView, lines: Seq<Seq<char>>) -> bool {
    exists|i: int| 0 <= i < lines.len() && line_descriptor(#[trigger] lines[i]) == Some(d)
}

/// Builds the descriptor of a line from the outcome of its two searches.
pub fn descriptor_from_captures(link: Option<String>, label: Option<String>) -> (r: Option<Pdf>)
    ensures
        opt_pdf_view(r) == describe(opt_str_view(link), opt_str_view(label)),
        r is Some <==> link is Some,
        r matches Some(p) ==> Some(p.name) == link && p.no == label,
{
    match link {
        Some(name) => Some(Pdf::new(label, name)),
        None => None,
    }
}

/// Reads one line of the page: searches it for a link and, where there is
/// one, for a label.
pub fn extract_line(line: &str) -> (r: Option<Pdf>)
    ensures
        opt_pdf_view(r) == line_descriptor(line@),
{
    let link = find_link(line);
    if link.is_some() {
        let label = find_label(line);
        descriptor_from_captures(link, label)
    } else {
        None
    }
}

/// Reads the text of a page line by line and collects the descriptors.
pub fn extract(text: &str) -> (r: Vec<Pdf>)
    ensures
        pdf_views(r@) == extracted(lines_of(text@)),
{
    let lines = split_lines(text);
    extract_lines(&lines)
}

/// Reads the lines of a page in their order and collects the descriptors.
pub fn extract_lines(lines: &Vec<String>) -> (r: Vec<Pdf>)
    ensures
        pdf_views(r@) == extracted(line_views(lines@)),
{
    let mut ret: Vec<Pdf> = Vec::new();
    let mut i: usize = 0;
    assert(line_views(lines@).take(0) =~= Seq::<Seq<char>>::empty());
    assert(pdf_views(ret@) =~= Seq::<PdfView>::empty());
    while i < lines.len()
        invariant
            i <= lines.len(),
            pdf_views(ret@) == extracted(line_views(lines@).take(i as int)),
        decreases lines.len() - i,
    {
        let ghost before = pdf_views(ret@);
        let found = extract_line(lines[i].as_str());
        proof {
            let all = line_views(lines@);
            assert(all.take(i + 1).drop_last() =~= all.take(i as int));
            assert(all.take(i + 1).last() == lines@[i as int]@);
        }
        match found {
            Some(pdf) => {
                ret.push(pdf);
                assert(pdf_views(ret@) =~= before + seq![pdf@]);
            },
            None => {
                assert(pdf_views(ret@) =~= before + Seq::<PdfView>::empty());
            },
        }
        i += 1;
    }
    assert(line_views(lines@).take(i as int) =~= line_views(lines@));
    ret
}

/// The descriptors of two runs of lines laid end to end are those of the
/// first run followed by those of the second: every line is read by itself,
/// and the descriptors keep the order of the lines.
pub proof fn law_extracted_concat(a: Seq<Seq<char>>, b: Seq<Seq<char>>)
    ensures
        extracted(a + b) == extracted(a) + extracted(b),
    decreases b.len(),
{
    if b.len() == 0 {
        assert(a + b =~= a);
        assert(extracted(a) + extracted(b) =~= extracted(a));
    } else {
        law_extracted_concat(a, b.drop_last());
        assert((a + b).drop_last() =~= a + b.drop_last());
        assert((a + b).last() == b.last());
        assert(extracted(a + b) =~= extracted(a) + extracted(b));
    }
}

/// A line in which the link pattern matches yields exactly one descriptor,
/// whose path is what the pattern captured; a line in which it does not
/// match yields none.
pub proof fn law_one_descriptor_per_link(line: Seq<char>)
    ensures
        link_of(line) is Some ==> extracted(seq![line]).len() == 1
            && extracted(seq![line])[0].name == link_of(line)->0,
        link_of(line) is None ==> extracted(seq![line]).len() == 0,
{
    lemma_extracted_single(line);
}

/// The descriptor of a line carries the label that the label pattern
/// captured in that line, and no label where that pattern did not match.
pub proof fn law_label_follows_line(line: Seq<char>)
    requires
        link_of(line) is Some,
    ensures
        extracted(seq![line]).len() == 1,
        extracted(seq![line])[0].no == label_of(line),
{
    lemma_extracted_single(line);
}

/// The descriptors of a page are as many as its lines with a link, so never
/// more than its lines.
pub proof fn law_extracted_len(lines: Seq<Seq<char>>)
    ensures
        extracted(lines).len() == linked_lines(lines),
        extracted(lines).len() <= lines.len(),
    decreases lines.len(),
{
    if lines.len() > 0 {
        law_extracted_len(lines.drop_last());
    }
}

/// Every descriptor of a page is the descriptor of one of its lines, and
/// every line in which the link pattern matches has its descriptor among
/// those of the page.
pub proof fn law_descriptors_are_those_of_the_lines(lines: Seq<Seq<char>>)
    ensures
        forall|k: int|
            0 <= k < extracted(lines).len() ==> comes_from(#[trigger] extracted(lines)[k], lines),
        forall|i: int|
            0 <= i < lines.len() && link_of(#[trigger] lines[i]) is Some ==> extracted(
                lines,
            ).contains(line_descriptor(lines[i])->0),
    decreases lines.len(),
{
    if lines.len() > 0 {
        let init = lines.drop_last();
        let all = extracted(lines);
        law_descriptors_are_those_of_the_lines(init);
        assert forall|k: int| 0 <= k < all.len() implies comes_from(#[trigger] all[k], lines) by {
            if k < extracted(init).len() {
                assert(all[k] == extracted(init)[k]);
                assert(comes_from(extracted(init)[k], init));
                let i = choose|i: int|
                    0 <= i < init.len() && line_descriptor(#[trigger] init[i]) == Some(all[k]);
                assert(lines[i] == init[i]);
            } else {
                assert(line_descriptor(lines[lines.len() - 1]) == Some(all[k]));
            }
        }
        assert forall|i: int| 0 <= i < lines.len() && link_of(#[trigger] lines[i]) is Some implies all.contains(
            line_descriptor(lines[i])->0,
        ) by {
            let d = line_descriptor(lines[i])->0;
            if i < init.len() {
                assert(lines[i] == init[i]);
                assert(extracted(init).contains(d));
                let k = choose|k: int| 0 <= k < extracted(init).len() && extracted(init)[k] == d;
                assert(all[k] == d);
            } else {
                assert(all[all.len() - 1] == d);
            }
        }
    }
}

proof fn lemma_extracted_single(line: Seq<char>)
    ensures
        extracted(seq![line]) == line_yield(line),
{
    let one = seq![line];
    assert(one.drop_last() =~= Seq::<Seq<char>>::empty());
    assert(one.last() == line);
    assert(extracted(one.drop_last()) =~= Seq::<PdfView>::empty());
    assert(extracted(one) =~= line_yield(line));
}

} // verus!
