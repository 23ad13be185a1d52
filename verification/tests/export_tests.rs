use transecho::export::{
    decide_export, export_folder_name, export_target, transcript_file_name, ExportError,
};

#[test]
fn file_name_holds_the_timestamp() {
    assert_eq!(transcript_file_name(1700000000), "TransEcho-1700000000.txt");
    assert_eq!(transcript_file_name(0), "TransEcho-0.txt");
    assert_eq!(export_folder_name(), "TransEcho");
}

#[test]
fn blank_transcripts_are_refused() {
    assert!(matches!(export_target("/tmp/out", "  \n\t"), Err(ExportError::EmptyTranscript)));
    assert!(matches!(export_target("relative", ""), Err(ExportError::EmptyTranscript)));
}

#[test]
fn directory_is_trimmed_and_must_be_absolute() {
    assert_eq!(export_target("  /tmp/out \n", "hello").unwrap(), "/tmp/out");
    assert!(matches!(export_target(" out/dir ", "hello"), Err(ExportError::PathNotAbsolute)));
}

#[test]
fn decision_order() {
    assert!(matches!(decide_export(" ", "d", false), Err(ExportError::EmptyTranscript)));
    assert!(matches!(decide_export(" ", "d", true), Err(ExportError::EmptyTranscript)));
    assert!(matches!(decide_export("x", "d", false), Err(ExportError::PathNotAbsolute)));
    assert_eq!(decide_export("x", "d", true).unwrap(), "d");
}

#[test]
fn error_messages() {
    assert_eq!(ExportError::EmptyTranscript.message(), "empty_transcript");
    assert_eq!(ExportError::PathNotAbsolute.message(), "export_path_must_be_absolute");
    assert_eq!(
        ExportError::DocumentsDirectoryUnavailable { detail: "none".to_string() }.message(),
        "documents_directory_unavailable:none"
    );
    assert_eq!(
        ExportError::CreateDirectoryFailed { detail: "denied".to_string() }.message(),
        "create_export_directory_failed:denied"
    );
    assert_eq!(
        ExportError::WriteFailed { detail: "full".to_string() }.message(),
        "write_transcript_failed:full"
    );
}
