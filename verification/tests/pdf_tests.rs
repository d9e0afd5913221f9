use ostep_fetch::pdf::{Pdf, DST, INDEX_NAME, URL};

#[test]
fn display_name_with_label() {
    let pdf = Pdf::new(Some("3".to_string()), "intro.pdf".to_string());
    assert_eq!(pdf.full_name(), "3.intro.pdf");
}

#[test]
fn display_name_without_label() {
    let pdf = Pdf::new(None, "intro.pdf".to_string());
    assert_eq!(pdf.full_name(), "intro.pdf");
}

#[test]
fn display_name_of_empty_parts() {
    assert_eq!(Pdf::new(Some(String::new()), String::new()).full_name(), ".");
    assert_eq!(Pdf::new(None, String::new()).full_name(), "");
}

#[test]
fn new_keeps_both_fields() {
    let pdf = Pdf::new(Some("12".to_string()), "vm/paging.pdf".to_string());
    assert_eq!(pdf.no, Some("12".to_string()));
    assert_eq!(pdf.name, "vm/paging.pdf");
}

#[test]
fn url_is_base_and_path() {
    let pdf = Pdf::new(Some("3".to_string()), "os/intro.pdf".to_string());
    assert_eq!(pdf.url(), "http://pages.cs.wisc.edu/~remzi/OSTEP/os/intro.pdf");
    assert_eq!(pdf.url(), format!("{}{}", URL, "os/intro.pdf"));
}

#[test]
fn url_under_another_base() {
    let pdf = Pdf::new(None, "intro.pdf".to_string());
    assert_eq!(pdf.url_under("http://localhost:8080/"), "http://localhost:8080/intro.pdf");
    assert_eq!(pdf.url_under(""), "intro.pdf");
}

#[test]
fn clone_is_the_same_descriptor() {
    let pdf = Pdf::new(Some("5".to_string()), "cpu.pdf".to_string());
    let copy = pdf.clone();
    assert_eq!(copy.no, pdf.no);
    assert_eq!(copy.name, pdf.name);
    assert_eq!(copy.full_name(), "5.cpu.pdf");
}

#[test]
fn fixed_names() {
    assert_eq!(URL, "http://pages.cs.wisc.edu/~remzi/OSTEP/");
    assert_eq!(DST, "pdf");
    assert_eq!(INDEX_NAME, "data.html");
}
