use hashline_transaction::digest::ExactBytesDigest;
use hashline_transaction::keys::CanonicalPathKey;
use hashline_transaction::keys::ExecutorFileIdentity;
use hashline_transaction::keys::ExecutorRootIdentity;
use hashline_transaction::observation::FileKind;
use hashline_transaction::observation::MetadataSnapshot;
use hashline_transaction::observation::ObservedFile;
use hashline_transaction::planner::PlanError;
use hashline_transaction::preview::build_preview_with_base;
use hashline_transaction::preview::decimal_digits;
use hashline_transaction::preview::preview_skeleton;
use hashline_transaction::preview::MutationPreview;
use hashline_transaction::preview::PreviewBudget;
use hashline_transaction::preview::PreviewText;
use hashline_transaction::request::PlanSummary;
use hashline_transaction::request::PlannedMutation;
use hashline_transaction::request::PlannedTransaction;
use hashline_transaction::request::TransactionAction;
use hashline_transaction::request::TransactionLimits;

/// A stand-in for the serialized size of a preview skeleton; far below every limit used here.
const BASE: u64 = 1000;

fn path_key(path: &str) -> CanonicalPathKey {
    CanonicalPathKey {
        namespace: "test-path".to_string(),
        value: path.as_bytes().to_vec(),
    }
}

fn observed_file(contents: &[u8], identity: u8) -> ObservedFile {
    ObservedFile::new(
        contents.to_vec(),
        ExecutorFileIdentity {
            namespace: "test-file".to_string(),
            value: vec![identity],
        },
        MetadataSnapshot::new("test-metadata".to_string(), b"mode=0644".to_vec()),
        1,
        FileKind::File,
    )
}

fn planned_transaction(
    mutations: Vec<PlannedMutation<String>>,
) -> PlannedTransaction<String, String> {
    PlannedTransaction {
        environment_id: "test-env".to_string(),
        root_uri: "file:///workspace".to_string(),
        root: "opened-root-handle".to_string(),
        root_identity: ExecutorRootIdentity {
            namespace: "test-root".to_string(),
            value: b"native-root-identity".to_vec(),
        },
        action: TransactionAction::Preview,
        mutations,
        plan_digest: ExactBytesDigest::new(b"deterministic-plan"),
        summary: PlanSummary {
            creates: 1,
            updates: 1,
            deletes: 1,
            moves: 1,
            before_bytes: 38,
            after_bytes: 33,
        },
    }
}

fn create(path: &str, contents: &[u8]) -> PlannedMutation<String> {
    PlannedMutation::Create {
        path: format!("native:{path}"),
        model_path: path.to_string(),
        path_key: path_key(path),
        contents: contents.to_vec(),
        after_digest: ExactBytesDigest::new(contents),
    }
}

#[test]
fn preview_projects_every_operation_without_executor_handles_or_full_images() {
    let update_before = observed_file(b"update-before-secret", 1);
    let update_after = b"update-after-secret";
    let delete_before = observed_file(b"delete-before-secret", 2);
    let move_before = observed_file(b"move-before-secret", 3);
    let move_after = b"move-after-secret";
    let plan = planned_transaction(vec![
        PlannedMutation::Delete {
            path: "native:z-delete".to_string(),
            model_path: "z-delete".to_string(),
            path_key: path_key("z-delete"),
            before: delete_before.clone(),
        },
        PlannedMutation::Move {
            source: "native:m-source".to_string(),
            model_source: "m-source".to_string(),
            source_key: path_key("m-source"),
            before: move_before.clone(),
            destination: "native:n-destination".to_string(),
            model_destination: "n-destination".to_string(),
            destination_key: path_key("n-destination"),
            contents: move_after.to_vec(),
            after_digest: ExactBytesDigest::new(move_after),
        },
        PlannedMutation::Update {
            path: "native:c-update".to_string(),
            model_path: "c-update".to_string(),
            path_key: path_key("c-update"),
            before: update_before.clone(),
            contents: update_after.to_vec(),
            after_digest: ExactBytesDigest::new(update_after),
        },
        create("a-create", b"create-after-secret"),
    ]);
    let limits = TransactionLimits {
        max_preview_bytes: 16,
        ..TransactionLimits::default()
    };

    let preview = build_preview_with_base(&plan, limits, BASE).unwrap();

    assert_eq!(
        preview.mutations,
        vec![
            MutationPreview::Create {
                path: "a-create".to_string(),
                after_digest: ExactBytesDigest::new(b"create-after-secret"),
                content: PreviewText {
                    text: "create-after-sec".to_string(),
                    truncated: true,
                },
            },
            MutationPreview::Update {
                path: "c-update".to_string(),
                before_digest: update_before.exact_digest,
                after_digest: ExactBytesDigest::new(update_after),
                content: PreviewText {
                    text: String::new(),
                    truncated: true,
                },
            },
            MutationPreview::Move {
                source: "m-source".to_string(),
                destination: "n-destination".to_string(),
                before_digest: move_before.exact_digest,
                after_digest: ExactBytesDigest::new(move_after),
                content: PreviewText {
                    text: String::new(),
                    truncated: true,
                },
            },
            MutationPreview::Delete {
                path: "z-delete".to_string(),
                before_digest: delete_before.exact_digest,
                content: PreviewText {
                    text: String::new(),
                    truncated: true,
                },
            },
        ]
    );
    assert_eq!(preview.preview_bytes, 16);
    assert!(preview.preview_truncated);
    assert_eq!(preview.environment_id, "test-env");
    assert_eq!(preview.root, "file:///workspace");
    assert_eq!(preview.plan_digest, plan.plan_digest);
    assert_eq!(preview.summary, plan.summary);
}

#[test]
fn preview_budget_is_utf8_safe_and_independent_of_request_order() {
    let first = create("a", "éé".as_bytes());
    let second = create("b", b"abc");
    let forward = planned_transaction(vec![first.clone(), second.clone()]);
    let reversed = planned_transaction(vec![second, first]);
    let limits = TransactionLimits {
        max_preview_bytes: 3,
        ..TransactionLimits::default()
    };

    let forward_preview = build_preview_with_base(&forward, limits, BASE).unwrap();
    let reversed_preview = build_preview_with_base(&reversed, limits, BASE).unwrap();

    assert_eq!(forward_preview, reversed_preview);
    assert_eq!(forward_preview.preview_bytes, 3);
    assert_eq!(
        forward_preview.mutations,
        vec![
            MutationPreview::Create {
                path: "a".to_string(),
                after_digest: ExactBytesDigest::new("éé".as_bytes()),
                content: PreviewText {
                    text: "é".to_string(),
                    truncated: true,
                },
            },
            MutationPreview::Create {
                path: "b".to_string(),
                after_digest: ExactBytesDigest::new(b"abc"),
                content: PreviewText {
                    text: "a".to_string(),
                    truncated: true,
                },
            },
        ]
    );
}

#[test]
fn response_budget_truncates_json_escape_expansion() {
    let contents = [b'\x01', b'\x01'];
    let plan = planned_transaction(vec![create("a", &contents)]);
    let skeleton_bytes = BASE;
    let limits = TransactionLimits {
        max_preview_bytes: contents.len() as u64,
        max_response_bytes: skeleton_bytes + 6,
        ..TransactionLimits::default()
    };

    let preview = build_preview_with_base(&plan, limits, skeleton_bytes).unwrap();

    assert_eq!(preview.preview_bytes, 1);
    assert!(preview.preview_truncated);
    assert_eq!(
        preview.mutations,
        vec![MutationPreview::Create {
            path: "a".to_string(),
            after_digest: ExactBytesDigest::new(&contents),
            content: PreviewText {
                text: "\u{1}".to_string(),
                truncated: true,
            },
        }]
    );
}

#[test]
fn preview_rejects_response_limit_smaller_than_the_structural_summary() {
    let plan = planned_transaction(vec![create("a", b"contents")]);
    let serialized_len = BASE;
    let limits = TransactionLimits {
        max_preview_bytes: 0,
        max_response_bytes: serialized_len - 1,
        ..TransactionLimits::default()
    };

    let error = build_preview_with_base(&plan, limits, serialized_len).unwrap_err();

    assert_eq!(
        error,
        PlanError::Limit {
            resource: "response bytes",
            observed: serialized_len,
            limit: serialized_len - 1,
        }
    );
}

#[test]
fn skeleton_has_no_content_and_marks_nonempty_contents_cut() {
    let plan = planned_transaction(vec![create("b", b""), create("a", b"x")]);
    let skeleton = preview_skeleton(&plan);
    assert_eq!(skeleton.preview_bytes, 0);
    assert!(skeleton.preview_truncated);
    assert_eq!(
        skeleton.mutations,
        vec![
            MutationPreview::Create {
                path: "a".to_string(),
                after_digest: ExactBytesDigest::new(b"x"),
                content: PreviewText {
                    text: String::new(),
                    truncated: true,
                },
            },
            MutationPreview::Create {
                path: "b".to_string(),
                after_digest: ExactBytesDigest::new(b""),
                content: PreviewText {
                    text: String::new(),
                    truncated: false,
                },
            },
        ]
    );
}

#[test]
fn skeleton_is_independent_of_request_order() {
    let first = create("a", "éé".as_bytes());
    let second = create("b", b"");
    let third = create("c", b"abc");
    let forward = planned_transaction(vec![first.clone(), second.clone(), third.clone()]);
    let shuffled = planned_transaction(vec![third, first, second]);
    assert_eq!(preview_skeleton(&forward), preview_skeleton(&shuffled));
}

#[test]
fn preview_errors_are_independent_of_request_order() {
    let valid = create("a", b"text");
    let first_invalid = create("b", &[0xff]);
    let second_invalid = create("c", &[0xc0, 0x80]);
    let forward = planned_transaction(vec![valid.clone(), first_invalid.clone(), second_invalid.clone()]);
    let shuffled = planned_transaction(vec![second_invalid, valid, first_invalid]);
    let limits = TransactionLimits::default();
    let expected = PlanError::InvalidUtf8 {
        path: "b".to_string(),
    };
    assert_eq!(build_preview_with_base(&forward, limits, BASE).unwrap_err(), expected);
    assert_eq!(build_preview_with_base(&shuffled, limits, BASE).unwrap_err(), expected);
    let tight = TransactionLimits {
        max_response_bytes: BASE - 1,
        ..limits
    };
    assert_eq!(
        build_preview_with_base(&forward, tight, BASE),
        build_preview_with_base(&shuffled, tight, BASE)
    );
}

#[test]
fn complete_contents_flip_the_truncation_flags() {
    let plan = planned_transaction(vec![create("a", b"hi")]);
    let preview = build_preview_with_base(&plan, TransactionLimits::default(), BASE).unwrap();
    assert_eq!(preview.preview_bytes, 2);
    assert!(!preview.preview_truncated);
    assert_eq!(
        preview.mutations,
        vec![MutationPreview::Create {
            path: "a".to_string(),
            after_digest: ExactBytesDigest::new(b"hi"),
            content: PreviewText {
                text: "hi".to_string(),
                truncated: false,
            },
        }]
    );
}

#[test]
fn non_utf8_preview_content_is_refused() {
    let plan = planned_transaction(vec![create("bin", &[0xff, 0xfe])]);
    assert_eq!(
        build_preview_with_base(&plan, TransactionLimits::default(), BASE).unwrap_err(),
        PlanError::InvalidUtf8 {
            path: "bin".to_string(),
        }
    );
}

#[test]
fn response_size_counts_escapes_digits_and_completion() {
    let budget = PreviewBudget {
        remaining_raw_bytes: 100,
        response_limit: 10_000,
        base_response_bytes: 100,
        encoded_content_bytes: 0,
        preview_bytes: 0,
        completed_nonempty: 0,
        total_nonempty: 2,
    };
    assert_eq!(budget.response_bytes(0, 0, 0), 100);
    assert_eq!(budget.response_bytes(10, 12, 1), 100 + 12 + 1 + 1);
    assert_eq!(budget.response_bytes(100, 0, 2), 100 + 2 + 2 + 1);
    assert_eq!(decimal_digits(0), 1);
    assert_eq!(decimal_digits(9), 1);
    assert_eq!(decimal_digits(10), 2);
    assert_eq!(decimal_digits(u64::MAX), 20);

    let mut budget = PreviewBudget {
        remaining_raw_bytes: 4,
        ..budget
    };
    let taken = budget.take("p", b"a\"\\\n").unwrap();
    assert_eq!(taken.text, "a\"\\\n");
    assert!(!taken.truncated);
    assert_eq!(budget.encoded_content_bytes, 1 + 2 + 2 + 2);
    assert_eq!(budget.preview_bytes, 4);
    assert_eq!(budget.remaining_raw_bytes, 0);
    assert_eq!(budget.completed_nonempty, 1);
}
