use vstd::prelude::*;
use crate::extract::{extracted, pdf_views};
use crate::failure::Failure;
use crate::lines::lines_of;
use crate::pdf::{display_name, source_url, Pdf, PdfView};

verus! {

/// One transfer of a run: where the document is fetched from, and the name
/// of the file in the destination directory that receives it.
#[derive(Debug)]
pub struct Download {
    pub url: String,
    pub file_name: String,
}

/// A transfer as a mathematical value.
pub struct DownloadView {
    pub url: Seq<char>,
    pub file_name: Seq<char>,
}

impl View for Download {
    type V = DownloadView;

    open spec fn view(&self) -> DownloadView {
        DownloadView { url: self.url@, file_name: self.file_name@ }
    }
}

/// The transfer that fetches the document of `d` from under `base`.
pub open spec fn download_of(base: Seq<char>, d: PdfView) -> DownloadView {
    DownloadView { url: source_url(base, d), file_name: display_name(d) }
}

/// The transfers of a run: one for each descriptor, in their order.
pub open spec fn planned(base: Seq<char>, pdfs: Seq<PdfView>) -> Seq<DownloadView> {
    Seq::new(pdfs.len(), |i: int| download_of(base, pdfs[i]))
}

/// The views of a sequence of transfers, in order.
pub open spec fn download_views(s: Seq<Download>) -> Seq<DownloadView> {
    Seq::new(s.len(), |i: int| s[i]@)
}

/// The transfer that fetches the document of `pdf` from under `base`.
pub fn download_for(pdf: &Pdf, base: &str) -> (r: Download)
    ensures
        r@ == download_of(base@, pdf@),
{
    Download { url: pdf.url_under(base), file_name: pdf.full_name() }
}

/// Lays out a run: every descriptor is fetched exactly once, from its
/// address under `base` into the file of its local name.
pub fn plan_downloads(pdfs: &Vec<Pdf>, base: &str) -> (r: Vec<Download>)
    ensures
        r@.len() == pdfs@.len(),
        forall|i: int| 0 <= i < pdfs@.len() ==> #[trigger] r@[i]@ == download_of(base@, pdfs@[i]@),
        download_views(r@) == planned(base@, pdf_views(pdfs@)),
{
    let mut r: Vec<Download> = Vec::new();
    let mut i: usize = 0;
    while i < pdfs.len()
        invariant
            i <= pdfs.len(),
            r@.len() == i,
            forall|k: int| 0 <= k < i ==> #[trigger] r@[k]@ == download_of(base@, pdfs@[k]@),
        decreases pdfs.len() - i,
    {
        r.push(download_for(&pdfs[i], base));
        i += 1;
    }
    assert(download_views(r@) =~= planned(base@, pdf_views(pdfs@)));
    r
}

/// How many of a sequence of outcomes are successes.
pub open spec fn count_ok(outcomes: Seq<Result<(), Failure>>) -> nat
    decreases outcomes.len(),
{
    if outcomes.len() == 0 {
        0
    } else {
        count_ok(outcomes.drop_last()) + if outcomes.last() is Ok {
            1nat
        } else {
            0nat
        }
    }
}

/// How many of a sequence of outcomes are failures.
pub open spec fn count_err(outcomes: Seq<Result<(), Failure>>) -> nat
    decreases outcomes.len(),
{
    if outcomes.len() == 0 {
        0
    } else {
        count_err(outcomes.drop_last()) + if outcomes.last() is Err {
            1nat
        } else {
            0nat
        }
    }
}

/// The counts that a run reports.
#[derive(Clone, Copy, Debug, PartialEq, Eq, Structural)]
pub struct Summary {
    /// Documents attempted.
    pub total: usize,
    /// Documents fetched and stored.
    pub succeeded: usize,
    /// Documents that failed.
    pub failed: usize,
}

impl Summary {
    /// Every attempt was counted once, as a success or as a failure.
    pub open spec fn wf(&self) -> bool {
        self.succeeded + self.failed == self.total
    }

    /// The summary of the outcomes `outcomes`, in whatever order they came.
    pub open spec fn of(outcomes: Seq<Result<(), Failure>>) -> Summary {
        Summary {
            total: outcomes.len() as usize,
            succeeded: count_ok(outcomes) as usize,
            failed: count_err(outcomes) as usize,
        }
    }

    /// The summary before any document was attempted.
    pub fn new() -> (r: Summary)
        ensures
            r == (Summary { total: 0, succeeded: 0, failed: 0 }),
            r.wf(),
    {
        Summary { total: 0, succeeded: 0, failed: 0 }
    }

    /// Counts one more outcome.
    pub fn record(&mut self, outcome: &Result<(), Failure>)
        requires
            old(self).wf(),
            old(self).total < usize::MAX,
        ensures
            final(self).wf(),
            final(self).total == old(self).total + 1,
            outcome is Ok ==> final(self).succeeded == old(self).succeeded + 1,
            outcome is Ok ==> final(self).failed == old(self).failed,
            outcome is Err ==> final(self).failed == old(self).failed + 1,
            outcome is Err ==> final(self).succeeded == old(self).succeeded,
    {
        self.total = self.total + 1;
        match outcome {
            Ok(_) => {
                self.succeeded = self.succeeded + 1;
            },
            Err(_) => {
                self.failed = self.failed + 1;
            },
        }
    }
}

/// Counts the outcomes of a run, one per document attempted.
pub fn tally(outcomes: &Vec<Result<(), Failure>>) -> (r: Summary)
    ensures
        r.wf(),
        r.total == outcomes@.len(),
        r.succeeded == count_ok(outcomes@),
        r.failed == count_err(outcomes@),
        r == Summary::of(outcomes@),
{
    let mut r = Summary::new();
    let mut i: usize = 0;
    assert(outcomes@.take(0) =~= Seq::<Result<(), Failure>>::empty());
    while i < outcomes.len()
        invariant
            i <= outcomes.len(),
            r.wf(),
            r.total == i,
            r.succeeded == count_ok(outcomes@.take(i as int)),
            r.failed == count_err(outcomes@.take(i as int)),
        decreases outcomes.len() - i,
    {
        proof {
            assert(outcomes@.take(i + 1).drop_last() =~= outcomes@.take(i as int));
            assert(outcomes@.take(i + 1).last() == outcomes@[i as int]);
        }
        r.record(&outcomes[i]);
        i += 1;
    }
    assert(outcomes@.take(i as int) =~= outcomes@);
    r
}

/// Successes and failures together are as many as the outcomes: every
/// document attempted is counted exactly once. Of no outcomes both counts
/// are zero.
pub proof fn law_counts_add_up(outcomes: Seq<Result<(), Failure>>)
    ensures
        count_ok(outcomes) + count_err(outcomes) == outcomes.len(),
        outcomes.len() == 0 ==> count_ok(outcomes) == 0 && count_err(outcomes) == 0,
    decreases outcomes.len(),
{
    if outcomes.len() > 0 {
        law_counts_add_up(outcomes.drop_last());
    }
}

/// The counts do not depend on the order in which the documents finished:
/// two runs of outcomes laid end to end count as the sum of both.
pub proof fn law_counts_concat(a: Seq<Result<(), Failure>>, b: Seq<Result<(), Failure>>)
    ensures
        count_ok(a + b) == count_ok(a) + count_ok(b),
        count_err(a + b) == count_err(a) + count_err(b),
    decreases b.len(),
{
    if b.len() == 0 {
        assert(a + b =~= a);
    } else {
        law_counts_concat(a, b.drop_last());
        assert((a + b).drop_last() =~= a + b.drop_last());
        assert((a + b).last() == b.last());
    }
}

/// A run that answers every planned transfer with one outcome reports as
/// many successes and failures together as there were descriptors.
pub proof fn law_every_descriptor_counted(
    base: Seq<char>,
    pdfs: Seq<PdfView>,
    outcomes: Seq<Result<(), Failure>>,
)
    requires
        outcomes.len() == planned(base, pdfs).len(),
    ensures
        count_ok(outcomes) + count_err(outcomes) == pdfs.len(),
{
    law_counts_add_up(outcomes);
}

/// The names of the files that a sequence of transfers writes, in order.
pub open spec fn file_names(downloads: Seq<DownloadView>) -> Seq<Seq<char>> {
    Seq::new(downloads.len(), |i: int| downloads[i].file_name)
}

/// The local names of the documents of a page, in the order of its lines.
pub open spec fn names_of_page(page: Seq<char>) -> Seq<Seq<char>> {
    let pdfs = extracted(lines_of(page));
    Seq::new(pdfs.len(), |i: int| display_name(pdfs[i]))
}

/// The files that a run writes are named by the page alone: two runs over
/// the same page write files of the same names, wherever they fetch from.
pub proof fn law_same_page_same_files(page: Seq<char>, base: Seq<char>, other_base: Seq<char>)
    ensures
        file_names(planned(base, extracted(lines_of(page)))) == names_of_page(page),
        file_names(planned(base, extracted(lines_of(page)))) == file_names(
            planned(other_base, extracted(lines_of(page))),
        ),
{
    assert(file_names(planned(base, extracted(lines_of(page)))) =~= names_of_page(page));
    assert(file_names(planned(other_base, extracted(lines_of(page)))) =~= names_of_page(page));
}

} // verus!
