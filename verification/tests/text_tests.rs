use job_monitor::model::{JobInfo, NotificationBatch};
use job_monitor::notify::{escape_html, format_batch_message, humanize_job_type};

#[test]
fn escape_replaces_html_metacharacters() {
    assert_eq!(escape_html("a & b"), "a &amp; b");
    assert_eq!(escape_html("<b>"), "&lt;b&gt;");
    assert_eq!(escape_html("x<&>y"), "x&lt;&amp;&gt;y");
}

#[test]
fn escape_leaves_plain_text_alone() {
    assert_eq!(escape_html(""), "");
    assert_eq!(escape_html("Warehouse Associate"), "Warehouse Associate");
}

#[test]
fn humanize_known_codes() {
    assert_eq!(humanize_job_type("FLEX_TIME"), "Flex time");
    assert_eq!(humanize_job_type("FULL_TIME"), "Full time");
    assert_eq!(humanize_job_type("PART_TIME"), "Part time");
    assert_eq!(humanize_job_type("SEASONAL"), "Seasonal time");
    assert_eq!(humanize_job_type("REDUCED_TIME"), "Reduced time");
}

#[test]
fn humanize_is_case_and_space_insensitive() {
    assert_eq!(humanize_job_type("flex_time"), "Flex time");
    assert_eq!(humanize_job_type("  Part_Time  "), "Part time");
}

#[test]
fn humanize_joins_multiple_codes() {
    assert_eq!(humanize_job_type("FLEX_TIME;PART_TIME"), "Flex/ Part time");
    assert_eq!(humanize_job_type("full_time; seasonal"), "Full/ Seasonal time");
}

#[test]
fn humanize_title_cases_unknown_codes() {
    assert_eq!(humanize_job_type("NIGHT_SHIFT"), "Night Shift time");
    assert_eq!(humanize_job_type("weekend"), "Weekend time");
}

#[test]
fn batch_message_layout() {
    let batch = NotificationBatch {
        location: "St. John's & Area".to_string(),
        jobs: vec![JobInfo {
            id: "J9".to_string(),
            title: "Sorter <night>".to_string(),
            location: "St. John's & Area".to_string(),
            job_type: "FLEX_TIME".to_string(),
            pay_min_cents: 1_750,
            pay_max_cents: 2_205,
            shift: 4,
        }],
    };
    let msg = format_batch_message(&batch);
    let expected = "<b>New Jobs in St. John's &amp; Area</b>\n═══════════════════\n<b>Sorter &lt;night&gt;</b>\n- Type: Flex time\n- Shifts: 4\n- Pay: $17.50-$22.05/hr\n═══════════════════\n";
    assert_eq!(msg, expected);
}

#[test]
fn batch_message_handles_negative_and_single_digit_amounts() {
    let batch = NotificationBatch {
        location: "LA".to_string(),
        jobs: vec![JobInfo {
            id: "J1".to_string(),
            title: "Driver".to_string(),
            location: "LA".to_string(),
            job_type: "SEASONAL".to_string(),
            pay_min_cents: 5,
            pay_max_cents: 100,
            shift: -2,
        }],
    };
    let msg = format_batch_message(&batch);
    assert!(msg.contains("- Shifts: -2\n"));
    assert!(msg.contains("- Pay: $0.05-$1.00/hr\n"));
}

#[test]
fn batch_message_lists_every_job_in_order() {
    let mk = |id: &str, title: &str| JobInfo {
        id: id.to_string(),
        title: title.to_string(),
        location: "NY".to_string(),
        job_type: "PART_TIME".to_string(),
        pay_min_cents: 2_000,
        pay_max_cents: 2_000,
        shift: 1,
    };
    let batch = NotificationBatch {
        location: "NY".to_string(),
        jobs: vec![mk("a", "First"), mk("b", "Second")],
    };
    let msg = format_batch_message(&batch);
    let first = msg.find("First").unwrap();
    let second = msg.find("Second").unwrap();
    assert!(first < second);
}
