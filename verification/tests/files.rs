use ziliwebka::files::after_first_read;
use ziliwebka::files::after_retry;
use ziliwebka::files::not_found_body;
use ziliwebka::files::real_path;
use ziliwebka::files::FetchStep;
use ziliwebka::files::ReadOutcome;
use ziliwebka::files::NUMBER_OF_RETRIES;

#[test]
fn paths_lie_below_root() {
    assert_eq!(real_path("/a.html"), "root/a.html");
    assert_eq!(real_path("/"), "root/index.html");
    assert_eq!(real_path("/docs/"), "root/docs/index.html");
    assert_eq!(real_path(""), "root");
    assert_eq!(real_path("x"), "rootx");
}

#[test]
fn first_read_that_succeeds_gives_200() {
    assert_eq!(
        after_first_read(ReadOutcome::Content(b"page".to_vec())),
        FetchStep::Reply(200, b"page".to_vec())
    );
    assert_eq!(after_first_read(ReadOutcome::Failed), FetchStep::NotFound);
    assert_eq!(
        after_first_read(ReadOutcome::Transient),
        FetchStep::Retry(4)
    );
}

#[test]
fn transient_failure_is_retried_five_times() {
    assert_eq!(NUMBER_OF_RETRIES, 5);
    let mut step = after_first_read(ReadOutcome::Transient);
    let mut reads = 0;
    while let FetchStep::Retry(left) = step {
        reads += 1;
        step = after_retry(ReadOutcome::Transient, left);
    }
    assert_eq!(reads, 5);
    assert_eq!(step, FetchStep::NotFound);
}

#[test]
fn retry_goes_on_after_any_failure() {
    assert_eq!(after_retry(ReadOutcome::Failed, 3), FetchStep::Retry(2));
    assert_eq!(after_retry(ReadOutcome::Transient, 1), FetchStep::Retry(0));
    assert_eq!(after_retry(ReadOutcome::Failed, 0), FetchStep::NotFound);
}

#[test]
fn retry_that_succeeds_keeps_the_status_404() {
    assert_eq!(
        after_retry(ReadOutcome::Content(b"late".to_vec()), 2),
        FetchStep::Reply(404, b"late".to_vec())
    );
    assert_eq!(
        after_retry(ReadOutcome::Content(Vec::new()), 0),
        FetchStep::Reply(404, Vec::new())
    );
}

#[test]
fn missing_page_has_a_plain_body() {
    assert_eq!(not_found_body(None), b"Error 404 file not found!".to_vec());
    assert_eq!(not_found_body(Some(b"<h1>404</h1>".to_vec())), b"<h1>404</h1>".to_vec());
    assert_eq!(not_found_body(Some(Vec::new())), Vec::<u8>::new());
}
