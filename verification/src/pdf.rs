use vstd::prelude::*;
use vstd::string::*;

verus! {

/// Base address under which the index page and every document live.
pub const URL: &'static str = "http://pages.cs.wisc.edu/~remzi/OSTEP/";

/// Name of the directory that receives the index page and the documents.
pub const DST: &'static str = "pdf";

/// Name under which the index page is stored inside the directory.
pub const INDEX_NAME: &'static str = "data.html";

/// The view of an optional string: the characters it holds, if any.
pub open spec fn opt_str_view(o: Option<String>) -> Option<Seq<char>> {
    match o {
        Some(s) => Some(s@),
        None => None,
    }
}

/// A descriptor as a mathematical value.
pub struct PdfView {
    /// The label found beside the link, if the line had one.
    pub no: Option<Seq<char>>,
    /// The path captured from the link.
    pub name: Seq<char>,
}

/// The local file name of a descriptor: label, a dot and the path where a
/// label is present, the path alone where it is not.
pub open spec fn display_name(d: PdfView) -> Seq<char> {
    match d.no {
        Some(no) => no + seq!['.'] + d.name,
        None => d.name,
    }
}

/// The address of a descriptor's document: the path appended to `base`.
pub open spec fn source_url(base: Seq<char>, d: PdfView) -> Seq<char> {
    base + d.name
}

/// One downloadable document of the index.
#[derive(Debug)]
pub struct Pdf {
    pub no: Option<String>,
    pub name: String,
}

impl View for Pdf {
    type V = PdfView;

    open spec fn view(&self) -> PdfView {
        PdfView { no: opt_str_view(self.no), name: self.name@ }
    }
}

impl Clone for Pdf {
    fn clone(&self) -> (r: Pdf)
        ensures
            r@ == self@,
    {
        let no = match &self.no {
            Some(s) => Some(s.clone()),
            None => None,
        };
        Pdf { no, name: self.name.clone() }
    }
}

impl Pdf {
    pub fn new(no: Option<String>, name: String) -> (r: Pdf)
        ensures
            r.no == no,
            r.name == name,
            r@ == (PdfView { no: opt_str_view(no), name: name@ }),
    {
        Pdf { no: no, name: name }
    }

    /// The name of the local file that receives the document.
    pub fn full_name(&self) -> (r: String)
        ensures
            r@ == display_name(self@),
    {
        match &self.no {
            Some(no) => {
                proof {
                    reveal_strlit(".");
                }
                let r = no.clone().concat(".").concat(self.name.as_str());
                assert(r@ =~= display_name(self@));
                r
            },
            None => self.name.clone(),
        }
    }

    /// The address of the document under `base`.
    pub fn url_under(&self, base: &str) -> (r: String)
        ensures
            r@ == source_url(base@, self@),
    {
        String::from_str(base).concat(self.name.as_str())
    }

    /// The address of the document under the fixed base address.
    pub fn url(&self) -> (r: String)
        ensures
            r@ == source_url(URL@, self@),
    {
        self.url_under(URL)
    }
}

} // verus!
