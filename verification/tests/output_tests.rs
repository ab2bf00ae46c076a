use fleet_exec::output::{
    csv_bytes_outcome, csv_document, csv_record_outcome, json_document, json_outcome, plain_text,
    render_results, OutputError, OutputFormat,
};

fn texts(items: &[&str]) -> Vec<String> {
    items.iter().map(|s| s.to_string()).collect()
}

fn sample() -> Vec<String> {
    texts(&["Host: h1\nCommand: echo hi\nhi\n", "Error", "say \"x\", then y"])
}

#[test]
fn format_names() {
    assert_eq!(OutputFormat::from_name("Json"), OutputFormat::Json);
    assert_eq!(OutputFormat::from_name("Csv"), OutputFormat::Csv);
    assert_eq!(OutputFormat::from_name("PlainText"), OutputFormat::PlainText);
}

#[test]
fn unknown_format_names_mean_plain_text() {
    assert_eq!(OutputFormat::from_name("json"), OutputFormat::PlainText);
    assert_eq!(OutputFormat::from_name("CSV"), OutputFormat::PlainText);
    assert_eq!(OutputFormat::from_name(""), OutputFormat::PlainText);
    assert_eq!(OutputFormat::from_name("Json "), OutputFormat::PlainText);
    assert_eq!(OutputFormat::from_name("xml"), OutputFormat::PlainText);
}

#[test]
fn plain_text_puts_a_line_feed_behind_each_line() {
    assert_eq!(plain_text(&texts(&["a", "b"])), "a\nb\n");
    assert_eq!(plain_text(&sample()), "Host: h1\nCommand: echo hi\nhi\n\nError\nsay \"x\", then y\n");
}

#[test]
fn plain_text_of_nothing_is_empty() {
    assert_eq!(plain_text(&Vec::new()), "");
}

#[test]
fn json_document_is_an_array_of_strings() {
    assert_eq!(
        json_document(&sample()),
        Ok("[\"Host: h1\\nCommand: echo hi\\nhi\\n\",\"Error\",\"say \\\"x\\\", then y\"]".to_string())
    );
    assert_eq!(json_document(&Vec::new()), Ok("[]".to_string()));
}

#[test]
fn csv_document_has_one_record_per_line() {
    assert_eq!(
        csv_document(&sample()),
        Ok(b"\"Host: h1\nCommand: echo hi\nhi\n\"\nError\n\"say \"\"x\"\", then y\"\n".to_vec())
    );
    assert_eq!(csv_document(&Vec::new()), Ok(Vec::new()));
}

#[test]
fn csv_document_marks_an_empty_line() {
    assert_eq!(csv_document(&texts(&["", "a"])), Ok(b"\"\"\na\n".to_vec()));
}

#[test]
fn render_follows_the_format_name() {
    let lines = texts(&["a,b", "c"]);
    assert_eq!(render_results(&lines, "PlainText"), Ok(b"a,b\nc\n".to_vec()));
    assert_eq!(render_results(&lines, "anything"), Ok(b"a,b\nc\n".to_vec()));
    assert_eq!(render_results(&lines, "Json"), Ok(b"[\"a,b\",\"c\"]".to_vec()));
    assert_eq!(render_results(&lines, "Csv"), Ok(b"\"a,b\"\nc\n".to_vec()));
}

#[test]
fn render_encodes_text_as_utf8() {
    let lines = texts(&["né"]);
    assert_eq!(render_results(&lines, "PlainText"), Ok("né\n".as_bytes().to_vec()));
    assert_eq!(render_results(&lines, "Json"), Ok("[\"né\"]".as_bytes().to_vec()));
    assert_eq!(render_results(&lines, "Csv"), Ok("né\n".as_bytes().to_vec()));
}

#[test]
fn output_errors_are_told_apart() {
    assert_ne!(OutputError::Json, OutputError::Csv);
}

#[test]
fn json_outcome_keeps_the_text() {
    assert_eq!(json_outcome(Ok("[]".to_string())), Ok("[]".to_string()));
}

#[test]
fn json_outcome_of_a_serialiser_error_is_the_json_error() {
    let error = serde_json::from_str::<u8>("x").unwrap_err();
    assert_eq!(json_outcome(Err(error)), Err(OutputError::Json));
}

#[test]
fn csv_record_outcome_of_a_written_record_is_ok() {
    assert_eq!(csv_record_outcome(Ok(())), Ok(()));
}

#[test]
fn csv_record_outcome_of_a_writer_error_is_the_csv_error() {
    let mut writer = csv::Writer::from_writer(Vec::new());
    writer.write_record(&["a", "b"]).unwrap();
    let error = writer.write_record(&["a"]).unwrap_err();
    assert_eq!(csv_record_outcome(Err(error)), Err(OutputError::Csv));
}

#[test]
fn csv_bytes_outcome_hands_the_bytes_on() {
    assert_eq!(csv_bytes_outcome(Some(vec![1, 2, 3])), Ok(vec![1, 2, 3]));
    assert_eq!(csv_bytes_outcome(None), Err(OutputError::Csv));
}

#[test]
fn every_format_has_its_file_for_any_lines() {
    let lines = texts(&["", "\u{0}\u{1b}[0m", "\"quoted\", and, more", "multi\nline\r\n", "日本語"]);
    for format in ["PlainText", "Json", "Csv", "other"] {
        assert!(render_results(&lines, format).is_ok());
        assert!(render_results(&Vec::new(), format).is_ok());
    }
    assert!(json_document(&lines).is_ok());
    assert!(csv_document(&lines).is_ok());
}

#[test]
fn json_file_reads_back_as_the_lines() {
    let lines = sample();
    let bytes = render_results(&lines, "Json").unwrap();
    let read: Vec<String> = serde_json::from_slice(&bytes).unwrap();
    assert_eq!(read, lines);
}

#[test]
fn csv_file_reads_back_as_one_field_per_line() {
    let lines = sample();
    let bytes = render_results(&lines, "Csv").unwrap();
    let mut reader = csv::ReaderBuilder::new().has_headers(false).from_reader(&bytes[..]);
    let mut read = Vec::new();
    for record in reader.records() {
        let record = record.unwrap();
        assert_eq!(record.len(), 1);
        read.push(record[0].to_string());
    }
    assert_eq!(read, lines);
}
