use hashline_transaction::edits::compile_edits as compile_edits_with_limit;
use hashline_transaction::edits::line_hash;
use hashline_transaction::edits::EditOutputLimit;
use hashline_transaction::edits::LineEnding;
use hashline_transaction::edits::TextDocument;
use hashline_transaction::planner::PlanError;
use hashline_transaction::request::FileEdit;
use hashline_transaction::request::LineAnchor;
use hashline_transaction::request::LineRange;

fn anchor(line: u64, text: &str) -> LineAnchor {
    LineAnchor {
        line,
        expected_hash: line_hash(text),
    }
}

fn compile_edits(
    path: &str,
    before: &[u8],
    edits: Vec<FileEdit>,
    allow_empty: bool,
) -> Result<Vec<u8>, PlanError> {
    compile_edits_with_limit(
        path,
        before,
        edits,
        allow_empty,
        EditOutputLimit {
            max_bytes: u64::MAX,
        },
    )
}

#[test]
fn ordered_line_edits_preserve_bom_crlf_and_final_newline_state() {
    let before = "\u{feff}alpha\r\nbeta\r\ngamma".as_bytes();
    let after = compile_edits(
        "file",
        before,
        vec![
            FileEdit::InsertAfter {
                anchor: anchor(1, "alpha"),
                lines: vec!["one".to_string()],
            },
            FileEdit::ReplaceLines {
                range: LineRange {
                    start: anchor(2, "beta"),
                    end: anchor(2, "beta"),
                },
                lines: vec!["B".to_string()],
            },
            FileEdit::InsertBefore {
                anchor: anchor(3, "gamma"),
                lines: vec!["two".to_string()],
            },
            FileEdit::InsertAfter {
                anchor: anchor(3, "gamma"),
                lines: vec!["omega".to_string()],
            },
        ],
        false,
    )
    .unwrap();

    assert_eq!(
        after,
        "\u{feff}alpha\r\none\r\nB\r\ntwo\r\ngamma\r\nomega".as_bytes()
    );
}

#[test]
fn replace_lines_can_delete_a_range_without_normalizing_other_bytes() {
    let after = compile_edits(
        "file",
        b"alpha\rbeta\rgamma\r",
        vec![FileEdit::ReplaceLines {
            range: LineRange {
                start: anchor(2, "beta"),
                end: anchor(3, "gamma"),
            },
            lines: Vec::new(),
        }],
        false,
    )
    .unwrap();

    assert_eq!(after, b"alpha\r");
}

#[test]
fn cardinality_changes_preserve_mixed_source_line_endings() {
    let after = compile_edits(
        "file",
        b"alpha\r\nbeta\ngamma\rdelta",
        vec![FileEdit::ReplaceLines {
            range: LineRange {
                start: anchor(2, "beta"),
                end: anchor(2, "beta"),
            },
            lines: vec!["B1".to_string(), "B2".to_string()],
        }],
        false,
    )
    .unwrap();

    assert_eq!(after, b"alpha\r\nB1\r\nB2\ngamma\rdelta");
}

#[test]
fn repeated_insert_after_preserves_request_order_and_final_newline_state() {
    let after = compile_edits(
        "file",
        b"alpha",
        vec![
            FileEdit::InsertAfter {
                anchor: anchor(1, "alpha"),
                lines: vec!["first".to_string()],
            },
            FileEdit::InsertAfter {
                anchor: anchor(1, "alpha"),
                lines: vec!["second".to_string()],
            },
        ],
        false,
    )
    .unwrap();

    assert_eq!(after, b"alpha\nfirst\nsecond");
}

#[test]
fn rejects_stale_reused_and_malformed_anchors() {
    let expected_hash = "0000".to_string();
    let actual_hash = line_hash("alpha");
    assert_eq!(
        compile_edits(
            "file",
            b"alpha\nbeta\n",
            vec![FileEdit::InsertBefore {
                anchor: LineAnchor {
                    line: 1,
                    expected_hash: expected_hash.clone(),
                },
                lines: vec!["new".to_string()],
            }],
            false,
        ),
        Err(PlanError::InvalidAnchor {
            path: "file".to_string(),
            reason: format!("line 1 hash mismatch: expected {expected_hash}, found {actual_hash}"),
        })
    );

    let replaced = FileEdit::ReplaceLines {
        range: LineRange {
            start: anchor(1, "alpha"),
            end: anchor(1, "alpha"),
        },
        lines: vec!["new".to_string()],
    };
    assert_eq!(
        compile_edits("file", b"alpha\n", vec![replaced.clone(), replaced], false,),
        Err(PlanError::InvalidAnchor {
            path: "file".to_string(),
            reason: "line 1 was already replaced".to_string(),
        })
    );

    assert_eq!(
        compile_edits(
            "file",
            b"alpha\n",
            vec![FileEdit::InsertAfter {
                anchor: LineAnchor {
                    line: 1,
                    expected_hash: "xyz".to_string(),
                },
                lines: vec!["new".to_string()],
            }],
            false,
        ),
        Err(PlanError::InvalidAnchor {
            path: "file".to_string(),
            reason: "line 1 hash must contain exactly 4 hexadecimal characters".to_string(),
        })
    );
}

#[test]
fn rejects_non_utf8_files_and_embedded_line_endings() {
    assert_eq!(
        compile_edits(
            "file",
            &[0xff],
            vec![FileEdit::ReplaceAll {
                contents: b"valid".to_vec(),
            }],
            false,
        ),
        Err(PlanError::InvalidUtf8 {
            path: "file".to_string(),
        })
    );
    assert_eq!(
        compile_edits(
            "file",
            b"alpha\n",
            vec![FileEdit::InsertBefore {
                anchor: anchor(1, "alpha"),
                lines: vec!["two\nlines".to_string()],
            }],
            false,
        ),
        Err(PlanError::InvalidEditText {
            path: "file".to_string(),
            reason: "line values must not contain line endings".to_string(),
        })
    );
}

#[test]
fn rejects_oversized_output_before_allocating_the_encoded_buffer() {
    assert_eq!(
        compile_edits_with_limit(
            "file",
            b"alpha\n",
            vec![FileEdit::InsertAfter {
                anchor: anchor(1, "alpha"),
                lines: vec!["beta".to_string()],
            }],
            false,
            EditOutputLimit { max_bytes: 10 },
        ),
        Err(PlanError::Limit {
            resource: "file bytes",
            observed: 11,
            limit: 10,
        })
    );
}

#[test]
fn no_edits_keep_the_exact_bytes_when_allowed() {
    let before = b"\xef\xbb\xbfa\r\nb\rc\n".to_vec();
    assert_eq!(
        compile_edits("file", &before, Vec::new(), true),
        Ok(before.clone())
    );
    assert_eq!(
        compile_edits("file", &before, Vec::new(), false),
        Err(PlanError::InvalidEdits {
            path: "file".to_string(),
        })
    );
}

#[test]
fn whole_file_replacement_must_stand_alone() {
    assert_eq!(
        compile_edits(
            "file",
            b"old",
            vec![FileEdit::ReplaceAll {
                contents: b"new".to_vec(),
            }],
            false,
        ),
        Ok(b"new".to_vec())
    );
    assert_eq!(
        compile_edits(
            "file",
            b"alpha\n",
            vec![
                FileEdit::InsertBefore {
                    anchor: anchor(1, "alpha"),
                    lines: vec!["x".to_string()],
                },
                FileEdit::ReplaceAll {
                    contents: b"new".to_vec(),
                },
            ],
            false,
        ),
        Err(PlanError::InvalidEdits {
            path: "file".to_string(),
        })
    );
    assert_eq!(
        compile_edits(
            "file",
            b"old",
            vec![FileEdit::ReplaceAll {
                contents: vec![0xff],
            }],
            false,
        ),
        Err(PlanError::InvalidUtf8 {
            path: "file".to_string(),
        })
    );
}

#[test]
fn anchors_outside_the_file_and_backwards_ranges_are_refused() {
    assert_eq!(
        compile_edits(
            "f",
            b"alpha\nbeta\n",
            vec![FileEdit::InsertBefore {
                anchor: anchor(3, "x"),
                lines: vec!["x".to_string()],
            }],
            false,
        ),
        Err(PlanError::InvalidAnchor {
            path: "f".to_string(),
            reason: "line 3 is outside file range 1..=2".to_string(),
        })
    );
    assert_eq!(
        compile_edits(
            "f",
            b"alpha\nbeta\n",
            vec![FileEdit::ReplaceLines {
                range: LineRange {
                    start: anchor(2, "beta"),
                    end: anchor(1, "alpha"),
                },
                lines: Vec::new(),
            }],
            false,
        ),
        Err(PlanError::InvalidAnchor {
            path: "f".to_string(),
            reason: "range starts at line 2 after line 1".to_string(),
        })
    );
    assert_eq!(
        compile_edits(
            "f",
            b"alpha\n",
            vec![FileEdit::InsertAfter {
                anchor: anchor(1, "alpha"),
                lines: Vec::new(),
            }],
            false,
        ),
        Err(PlanError::InvalidEditText {
            path: "f".to_string(),
            reason: "inserted lines must not be empty".to_string(),
        })
    );
}

#[test]
fn line_hash_is_four_lower_case_hex_digits_and_case_insensitive_in_anchors() {
    let hash = line_hash("alpha");
    assert_eq!(hash.len(), 4);
    assert!(hash.bytes().all(|b| b.is_ascii_digit() || (b'a'..=b'f').contains(&b)));
    assert_ne!(line_hash("alpha"), line_hash("alpha "));
    let upper = LineAnchor {
        line: 1,
        expected_hash: hash.to_uppercase(),
    };
    assert_eq!(
        compile_edits(
            "f",
            b"alpha\n",
            vec![FileEdit::InsertBefore {
                anchor: upper,
                lines: vec!["zero".to_string()],
            }],
            false,
        ),
        Ok(b"zero\nalpha\n".to_vec())
    );
}

#[test]
fn parsing_keeps_bom_terminators_and_first_ending() {
    let document = TextDocument::parse("f", b"\xef\xbb\xbfa\rb\r\nc").unwrap();
    assert!(document.bom);
    assert_eq!(document.lines.len(), 3);
    assert_eq!(document.lines[0].ending, LineEnding::Cr);
    assert_eq!(document.lines[1].ending, LineEnding::CrLf);
    assert_eq!(document.lines[2].ending, LineEnding::Unterminated);
    assert_eq!(document.fallback_ending, LineEnding::Cr);
    assert_eq!(LineEnding::CrLf.as_bytes(), b"\r\n");
    assert_eq!(
        TextDocument::parse("f", &[0xc3]).err(),
        Some(PlanError::InvalidUtf8 {
            path: "f".to_string()
        })
    );
}

#[test]
fn parsed_documents_finish_to_their_bytes_within_the_output_limit() {
    let bytes = b"\xef\xbb\xbfone\r\ntwo\rthree";
    let document = TextDocument::parse("f", bytes).unwrap();
    assert_eq!(
        document.finish(EditOutputLimit { max_bytes: bytes.len() as u64 }),
        Ok(bytes.to_vec())
    );
    assert_eq!(
        document.finish(EditOutputLimit {
            max_bytes: bytes.len() as u64 - 1
        }),
        Err(PlanError::Limit {
            resource: "file bytes",
            observed: bytes.len() as u64,
            limit: bytes.len() as u64 - 1,
        })
    );
}
