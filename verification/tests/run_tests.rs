use ostep_fetch::extract::extract;
use ostep_fetch::failure::Failure;
use ostep_fetch::pdf::Pdf;
use ostep_fetch::run::{download_for, plan_downloads, tally, Summary};
use ostep_fetch::setup::{classify, init_plan, Occupant, Removal};

#[test]
fn download_of_one_descriptor() {
    let pdf = Pdf::new(Some("3".to_string()), "os/intro.pdf".to_string());
    let d = download_for(&pdf, "http://host/");
    assert_eq!(d.url, "http://host/os/intro.pdf");
    assert_eq!(d.file_name, "3.os/intro.pdf");
}

#[test]
fn plan_has_one_download_per_descriptor_in_order() {
    let pdfs = vec![
        Pdf::new(Some("1".to_string()), "a.pdf".to_string()),
        Pdf::new(None, "b.pdf".to_string()),
        Pdf::new(Some("3".to_string()), "c.pdf".to_string()),
    ];
    let plan = plan_downloads(&pdfs, "http://host/");
    assert_eq!(plan.len(), 3);
    let urls: Vec<&str> = plan.iter().map(|d| d.url.as_str()).collect();
    let files: Vec<&str> = plan.iter().map(|d| d.file_name.as_str()).collect();
    assert_eq!(urls, vec!["http://host/a.pdf", "http://host/b.pdf", "http://host/c.pdf"]);
    assert_eq!(files, vec!["1.a.pdf", "b.pdf", "3.c.pdf"]);
}

#[test]
fn plan_of_nothing_is_empty() {
    assert!(plan_downloads(&Vec::new(), "http://host/").is_empty());
}

#[test]
fn plan_of_an_extracted_page() {
    let page = "<small>3</small> ... href=os/intro.pdf\nplain\n";
    let plan = plan_downloads(&extract(page), ostep_fetch::pdf::URL);
    assert_eq!(plan.len(), 1);
    assert_eq!(plan[0].url, "http://pages.cs.wisc.edu/~remzi/OSTEP/os/intro.pdf");
    assert_eq!(plan[0].file_name, "3.os/intro.pdf");
}

#[test]
fn tally_of_no_outcomes() {
    let s = tally(&Vec::new());
    assert_eq!(s, Summary { total: 0, succeeded: 0, failed: 0 });
    assert_eq!(s, Summary::new());
}

#[test]
fn tally_one_failure_in_ten() {
    let mut outcomes: Vec<Result<(), Failure>> = Vec::new();
    for i in 0..10 {
        if i == 4 {
            outcomes.push(Err(Failure::Network));
        } else {
            outcomes.push(Ok(()));
        }
    }
    let s = tally(&outcomes);
    assert_eq!(s.total, 10);
    assert_eq!(s.succeeded, 9);
    assert_eq!(s.failed, 1);
}

#[test]
fn tally_counts_add_up() {
    let outcomes = vec![
        Err(Failure::LocalIo),
        Ok(()),
        Err(Failure::Network),
        Err(Failure::Network),
        Ok(()),
    ];
    let s = tally(&outcomes);
    assert_eq!(s.succeeded, 2);
    assert_eq!(s.failed, 3);
    assert_eq!(s.succeeded + s.failed, outcomes.len());
    assert_eq!(s.total, outcomes.len());
}

#[test]
fn tally_does_not_depend_on_the_order() {
    let a = vec![Ok(()), Err(Failure::Network), Ok(())];
    let b = vec![Err(Failure::Network), Ok(()), Ok(())];
    assert_eq!(tally(&a), tally(&b));
}

#[test]
fn record_counts_one_outcome() {
    let mut s = Summary::new();
    s.record(&Ok(()));
    assert_eq!(s, Summary { total: 1, succeeded: 1, failed: 0 });
    s.record(&Err(Failure::LocalIo));
    assert_eq!(s, Summary { total: 2, succeeded: 1, failed: 1 });
}

#[test]
fn local_errors_are_local_failures() {
    let e = std::io::Error::new(std::io::ErrorKind::PermissionDenied, "denied");
    assert_eq!(Failure::from(e), Failure::LocalIo);
}

#[test]
fn transfer_errors_are_network_failures() {
    let e = reqwest::blocking::get("not an address").unwrap_err();
    assert_eq!(Failure::from(e), Failure::Network);
}

#[test]
fn a_file_in_the_way_is_removed() {
    assert_eq!(classify(true, true, false), Occupant::File);
    assert_eq!(init_plan(Occupant::File), Removal::RemoveFile);
}

#[test]
fn a_directory_in_the_way_is_removed_with_its_content() {
    assert_eq!(classify(true, false, true), Occupant::Directory);
    assert_eq!(init_plan(Occupant::Directory), Removal::RemoveDirAll);
}

#[test]
fn nothing_in_the_way_nothing_removed() {
    assert_eq!(classify(false, false, false), Occupant::Nothing);
    assert_eq!(classify(false, true, true), Occupant::Nothing);
    assert_eq!(init_plan(Occupant::Nothing), Removal::Keep);
}

#[test]
fn something_else_in_the_way_is_left() {
    assert_eq!(classify(true, false, false), Occupant::Other);
    assert_eq!(init_plan(Occupant::Other), Removal::Keep);
}

#[test]
fn a_file_is_taken_as_a_file_first() {
    assert_eq!(classify(true, true, true), Occupant::File);
}
