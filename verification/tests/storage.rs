//! File names and descriptions.

use std::path::PathBuf;
use virtual_print_sink::clock::Moment;
use virtual_print_sink::name_map::NameMap;
use virtual_print_sink::storage::{
    detect_extension, file_base_text, sanitize_component, JobMetadata, JobStorage,
};

/// 2026-08-29T13:55:00.123+09:00.
fn moment() -> Moment {
    Moment { seconds: 1_787_979_300, nanos: 123_000_000, offset: 32_400 }
}

/// A job over `protocol` with a name and a document format.
fn described(protocol: &str, job_name: Option<&str>, format: Option<&str>) -> JobMetadata {
    let mut metadata = JobMetadata::default();
    metadata.protocol = protocol.to_string();
    metadata.job_name = job_name.map(|v| v.to_string());
    metadata.document_format = format.map(|v| v.to_string());
    metadata
}

#[test]
fn recognizes_pdf() {
    assert_eq!(detect_extension(b"%PDF-1.7", None), "pdf");
}

#[test]
fn sanitizes_file_names() {
    assert_eq!(sanitize_component("A/B:C"), "A_B_C");
}

#[test]
fn components_are_fit_for_file_names() {
    assert_eq!(sanitize_component("..__Report.pdf__.."), "Report.pdf");
    assert_eq!(sanitize_component("my report (1)"), "my_report__1");
    assert_eq!(sanitize_component(""), "print-job");
    assert_eq!(sanitize_component("///"), "print-job");
    assert_eq!(sanitize_component("印刷"), "印刷");
    let long = "x".repeat(100);
    assert_eq!(sanitize_component(&long), "x".repeat(80));
    assert_eq!(sanitize_component("a-b_c.d"), "a-b_c.d");
    let cut = format!("{}/{}", "x".repeat(79), "y");
    assert_eq!(sanitize_component(&cut), format!("{}_", "x".repeat(79)));
    for value in ["..a b..", "", "x/y", "印刷 1"] {
        let once = sanitize_component(value);
        assert_eq!(sanitize_component(&once), once);
    }
}

#[test]
fn extensions_by_format() {
    let cases = [
        ("application/pdf", "pdf"),
        ("application/postscript", "ps"),
        ("application/vnd.hp-pcl", "pcl"),
        ("application/pcl", "pcl"),
        ("image/pwg-raster", "pwg"),
        ("image/urf", "urf"),
        ("image/jpeg", "jpg"),
        ("image/png", "png"),
        ("text/plain", "txt"),
        ("Application/PDF", "pdf"),
    ];
    for (format, found) in cases {
        assert_eq!(detect_extension(b"%!PS", Some(format)), found);
    }
    assert_eq!(detect_extension(b"%!PS", Some("application/octet-stream")), "ps");
    assert_eq!(detect_extension(b"hello", Some("application/x")), "prn");
}

#[test]
fn extensions_by_data() {
    let cases: [(&[u8], &str); 10] = [
        (b"%PDF-1.7", "pdf"),
        (b"%!PS-Adobe", "ps"),
        (b"\xff\xd8\xff\xe0", "jpg"),
        (b"\x89PNG\r\n\x1a\n", "png"),
        (b"RaS2", "pwg"),
        (b"RaS3", "pwg"),
        (b"UNIRAST\0", "urf"),
        (b"\x1b%-12345X@PJL", "pcl"),
        (b"%PDF", "prn"),
        (b"", "prn"),
    ];
    for (data, found) in cases {
        assert_eq!(detect_extension(data, None), found);
    }
}

#[test]
fn plans_name_the_files() {
    let mut storage = JobStorage::new(PathBuf::from("print_jobs"));
    assert_eq!(storage.output_dir(), &PathBuf::from("print_jobs"));
    let plan = storage.plan_save(
        b"%PDF-1.4",
        described("ipp", Some("Report"), Some("application/pdf")),
        &moment(),
    );
    assert_eq!(plan.raw_file_name, "20260829_135500_123_IPP_000001_Report.pdf");
    assert_eq!(
        plan.metadata_file_name,
        "20260829_135500_123_IPP_000001_Report.json"
    );
    assert_eq!(plan.metadata.bytes, 8);
    assert_eq!(plan.metadata.received_at, "2026-08-29T13:55:00.123+09:00");
    assert_eq!(
        plan.metadata.raw_file_name.as_deref(),
        Some("20260829_135500_123_IPP_000001_Report.pdf")
    );
    assert_eq!(plan.metadata.job_name.as_deref(), Some("Report"));
    let saved = plan.saved(PathBuf::from("a.pdf"), PathBuf::from("a.json"));
    assert_eq!(saved.raw_path, PathBuf::from("a.pdf"));
    assert_eq!(saved.metadata_path, PathBuf::from("a.json"));
    assert_eq!(saved.bytes, 8);
    let plan = storage.plan_save(b"%!PS", described("LPR", None, None), &moment());
    assert_eq!(plan.raw_file_name, "20260829_135500_123_LPR_000002_print-job.ps");
}

#[test]
fn files_of_two_jobs_differ() {
    let mut storage = JobStorage::new(PathBuf::from("x"));
    let first = storage.plan_save(b"", described("IPP", Some("a"), None), &moment());
    let second = storage.plan_save(b"", described("LPR", Some("a"), None), &moment());
    let third = storage.plan_save(b"", described("IPP", Some("a"), None), &moment());
    let names = [
        first.raw_file_name,
        first.metadata_file_name,
        second.raw_file_name,
        second.metadata_file_name,
        third.raw_file_name,
        third.metadata_file_name,
    ];
    for i in 0..names.len() {
        for j in 0..i {
            assert_ne!(names[i], names[j]);
        }
        assert!(names[i].chars().all(|c| c.is_ascii_alphanumeric() || c == '_' || c == '.'));
    }
}

#[test]
fn stamps_from_the_year_10000_on() {
    let mut storage = JobStorage::new(PathBuf::from("x"));
    let mut name = |seconds: i64, offset: i32| {
        let now = Moment { seconds, nanos: 999_999_999, offset };
        storage
            .plan_save(b"", described("IPP", Some("../a"), None), &now)
            .raw_file_name
    };
    assert_eq!(name(253_402_300_799, 0), "99991231_235959_999_IPP_000001_a.prn");
    assert_eq!(name(253_402_300_799, 1), "+100000101_000000_999_IPP_000002_a.prn");
    assert_eq!(name(253_402_300_800, -1), "99991231_235959_999_IPP_000003_a.prn");
    assert_eq!(
        name(8_210_266_876_799, 0),
        "+2621421231_235959_999_IPP_000004_a.prn"
    );
    assert_eq!(
        name(8_210_266_876_799, 86_399),
        "+2621430101_235958_999_IPP_000005_a.prn"
    );
    assert_eq!(name(0, -3600), "19691231_230000_999_IPP_000006_a.prn");
}

#[test]
fn metadata_can_be_copied() {
    let mut metadata = described("IPP", Some("Report"), None);
    metadata.attributes.insert("b".to_string(), "2".to_string());
    metadata.attributes.insert("a".to_string(), "1".to_string());
    let copy = metadata.clone();
    metadata.attributes.remove("a");
    assert_eq!(copy.protocol, "IPP");
    assert_eq!(copy.job_name.as_deref(), Some("Report"));
    assert_eq!(copy.attributes.len(), 2);
    assert_eq!(copy.attributes.entry(0), ("a", &"1".to_string()));
    assert_eq!(copy.attributes.entry(1), ("b", &"2".to_string()));
}

#[test]
fn saving_reads_the_clock() {
    let mut storage = JobStorage::new(PathBuf::from("x"));
    let plan = storage.save_bytes(b"data", described("IPP", Some("a b"), None));
    assert!(plan.raw_file_name.ends_with("_IPP_000001_a_b.prn"));
    assert!(plan.metadata_file_name.ends_with("_IPP_000001_a_b.json"));
    assert_eq!(plan.raw_file_name.len(), 19 + "_IPP_000001_a_b.prn".len());
    assert_eq!(plan.metadata.bytes, 4);
    assert!(plan.metadata.received_at.len() > 19);
    let plan = storage.save_bytes(b"data", described("IPP", Some("a b"), None));
    assert!(plan.raw_file_name.ends_with("_IPP_000002_a_b.prn"));
}

#[test]
fn names_with_letters_beyond_ascii() {
    assert_eq!(
        file_base_text("s", "straße", 1_234_567, &Some("Ä".to_string())),
        "s_STRASSE_1234567_Ä"
    );
}

#[test]
fn metadata_starts_empty() {
    let metadata = JobMetadata::default();
    assert_eq!(metadata.protocol, "");
    assert_eq!(metadata.bytes, 0);
    assert_eq!(metadata.raw_file_name, None);
    assert_eq!(metadata.attributes.len(), 0);
}

#[test]
fn names_are_kept_in_order() {
    let mut map: NameMap<String> = NameMap::new();
    for name in ["b", "a", "c", "b", "ab"] {
        map.insert(name.to_string(), format!("<{name}>"));
    }
    assert_eq!(map.len(), 4);
    let names: Vec<&str> = (0..map.len()).map(|i| map.entry(i).0).collect();
    assert_eq!(names, vec!["a", "ab", "b", "c"]);
    assert_eq!(map.get("ab").map(|v| v.as_str()), Some("<ab>"));
    assert_eq!(map.remove("ab").as_deref(), Some("<ab>"));
    assert_eq!(map.remove("ab"), None);
    assert_eq!(map.len(), 3);
}
