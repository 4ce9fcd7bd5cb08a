use upload_server::upload::{reject_content_type, reply, Action, Event, Phase, Upload, UploadResult};

fn field(name: &str, filename: Option<&str>) -> Event {
    Event::Field { name: name.to_string(), filename: filename.map(|f| f.to_string()) }
}

#[test]
fn file_field_is_stored_and_reported() {
    let mut up = Upload::new();
    match up.step(field("file", Some("report.PDF"))) {
        Action::Create { name } => assert_eq!(name, "report.pdf"),
        _ => panic!("expected a file to be created"),
    }
    let result = match up.step(Event::Written) {
        Action::Finish(r) => r,
        _ => panic!("expected the upload to finish"),
    };
    assert!(matches!(&result, UploadResult::Stored(p) if p == "report.pdf"));
    let r = reply(&result);
    assert_eq!(r.status, 200);
    assert_eq!(r.body, "Uploaded report.pdf");
}

#[test]
fn form_without_file_field_is_rejected() {
    let mut up = Upload::new();
    assert!(matches!(up.step(field("note", None)), Action::Discard));
    let result = match up.step(Event::End) {
        Action::Finish(r) => r,
        _ => panic!("expected the upload to finish"),
    };
    assert!(matches!(result, UploadResult::NoFileField));
    let r = reply(&result);
    assert_eq!(r.status, 400);
    assert_eq!(r.body, "No file in request");
}

#[test]
fn empty_form_has_no_file() {
    let mut up = Upload::new();
    assert!(matches!(up.step(Event::End), Action::Finish(UploadResult::NoFileField)));
    assert!(matches!(up.phase, Phase::Finished));
}

#[test]
fn fields_before_file_are_discarded() {
    let mut up = Upload::new();
    assert!(matches!(up.step(field("a", None)), Action::Discard));
    assert!(matches!(up.step(field("b", Some("x.png"))), Action::Discard));
    assert!(matches!(up.step(field("file", Some("x.png"))), Action::Create { name } if name == "x.png"));
}

#[test]
fn only_first_file_field_is_honoured() {
    let mut up = Upload::new();
    assert!(matches!(up.step(field("file", Some("one.txt"))), Action::Create { .. }));
    assert!(matches!(up.step(field("file", Some("two.txt"))), Action::Ignore));
    assert!(matches!(up.step(Event::Written), Action::Finish(UploadResult::Stored(p)) if p == "one.txt"));
    assert!(matches!(up.step(field("file", Some("three.txt"))), Action::Ignore));
}

#[test]
fn file_without_client_name_gets_generated_pdf() {
    let mut up = Upload::new();
    match up.step(field("file", None)) {
        Action::Create { name } => {
            assert_eq!(name.len(), 36);
            assert!(name.ends_with(".pdf"));
        }
        _ => panic!("expected a file to be created"),
    }
}

#[test]
fn write_failure_gives_server_error() {
    let mut up = Upload::new();
    assert!(matches!(up.step(field("file", Some("a.bin"))), Action::Create { .. }));
    let result = match up.step(Event::Failed { cause: "disk full".to_string() }) {
        Action::Finish(r) => r,
        _ => panic!("expected the upload to finish"),
    };
    assert!(matches!(&result, UploadResult::Failure(c) if c == "disk full"));
    let r = reply(&result);
    assert_eq!(r.status, 500);
    assert_eq!(r.body, "");
}

#[test]
fn read_failure_while_scanning_gives_failure() {
    let mut up = Upload::new();
    assert!(matches!(
        up.step(Event::Failed { cause: "reset".to_string() }),
        Action::Finish(UploadResult::Failure(c)) if c == "reset"
    ));
}

#[test]
fn non_multipart_request_is_rejected() {
    let r = reject_content_type();
    assert_eq!(r.status, 400);
    assert_eq!(r.body, "Expecting multipart/form-data");
}
