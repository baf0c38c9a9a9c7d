use ocr_service::model::ArtifactKind;
use ocr_service::pipeline::Artifact;
use ocr_service::upload::{accept_upload, classify, open_session, store_upload};

fn is_token(s: &str) -> bool {
    let chars: Vec<char> = s.chars().collect();
    chars.len() == 36
        && chars.iter().enumerate().all(|(i, c)| {
            if i == 8 || i == 13 || i == 18 || i == 23 {
                *c == '-'
            } else {
                c.is_ascii_digit() || ('a'..='f').contains(c)
            }
        })
}

#[test]
fn documents_and_images_are_taken() {
    assert_eq!(classify("scan.pdf"), Some(ArtifactKind::Pdf));
    assert_eq!(classify("SCAN.PDF"), Some(ArtifactKind::Pdf));
    assert_eq!(classify("page.png"), Some(ArtifactKind::Image));
    assert_eq!(classify("page.JPG"), Some(ArtifactKind::Image));
    assert_eq!(classify("page.Jpeg"), Some(ArtifactKind::Image));
    assert_eq!(classify("a.pdf.png"), Some(ArtifactKind::Image));
    assert_eq!(classify(".pdf"), Some(ArtifactKind::Pdf));
}

#[test]
fn other_names_are_not_taken() {
    assert_eq!(classify("notes.txt"), None);
    assert_eq!(classify("unnamed"), None);
    assert_eq!(classify("pdf"), None);
    assert_eq!(classify("scan.pdf "), None);
    assert_eq!(classify("scan.gif"), None);
    assert_eq!(classify(""), None);
}

#[test]
fn accepted_upload_is_stored_under_its_extension() {
    assert_eq!(
        store_upload("/tmp", "Report.PDF", "abc"),
        Some(Artifact {
            path: "/tmp/ocr_abc.PDF".to_string(),
            filename: "Report.PDF".to_string(),
            kind: ArtifactKind::Pdf,
        })
    );
    assert_eq!(
        store_upload("/tmp/", "a.b.jpeg", "t"),
        Some(Artifact {
            path: "/tmp/ocr_t.jpeg".to_string(),
            filename: "a.b.jpeg".to_string(),
            kind: ArtifactKind::Image,
        })
    );
}

#[test]
fn text_file_is_silently_excluded() {
    assert_eq!(store_upload("/tmp", "notes.txt", "abc"), None);
    assert_eq!(accept_upload("/tmp", "notes.txt"), None);
}

#[test]
fn accepted_upload_gets_a_fresh_name() {
    let first = accept_upload("/tmp", "scan.png").unwrap();
    let second = accept_upload("/tmp", "scan.png").unwrap();
    assert_eq!(first.filename, "scan.png");
    assert_eq!(first.kind, ArtifactKind::Image);
    let token = first.path.strip_prefix("/tmp/ocr_").unwrap().strip_suffix(".png").unwrap();
    assert!(is_token(token));
    assert_ne!(first.path, second.path);
}

#[test]
fn session_opens_with_an_id_and_no_results() {
    let first = open_session();
    let second = open_session();
    assert!(is_token(&first.session_id));
    assert!(first.results.is_empty());
    assert_ne!(first.session_id, second.session_id);
}
