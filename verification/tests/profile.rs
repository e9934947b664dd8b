use webhook_runners::profile::{
    canonical_label, compatibility_table, decode_chars, lookup_chars, parse_label, resolve_label,
    ResourceProfile,
};

fn profile(cpu: i32, memory: i32, disk: i32, timeout: i32) -> ResourceProfile {
    ResourceProfile { cpu, memory, disk, timeout }
}

#[test]
fn label_with_disk_decodes() {
    assert_eq!(
        resolve_label("aws-ecs-16cpu-64mem-20disk-30m"),
        Some(profile(16384, 65536, 20, 30))
    );
    assert_eq!(
        parse_label("aws-ecs-16cpu-64mem-20disk-30m"),
        Some(profile(16384, 65536, 20, 30))
    );
}

#[test]
fn label_of_another_shape_is_rejected() {
    assert_eq!(resolve_label("invalid-format"), None);
    assert_eq!(parse_label("invalid-format"), None);
}

#[test]
fn label_with_a_segment_that_is_no_number_is_rejected() {
    assert_eq!(resolve_label("aws-ecs-abcpu-64mem-20disk-30m"), None);
    assert_eq!(resolve_label("aws-ecs-16cpu-xmem-20disk-30m"), None);
    assert_eq!(resolve_label("aws-ecs-16cpu-64mem-disk-30m"), None);
    assert_eq!(resolve_label("aws-ecs-16cpu-64mem-20disk-m"), None);
    assert_eq!(resolve_label("aws-ecs-16cpu-64mem-20disk-3xm"), None);
}

#[test]
fn label_without_disk_gets_the_default_disk() {
    assert_eq!(resolve_label("aws-ecs-16cpu-64mem-30m"), Some(profile(16384, 65536, 20, 30)));
    assert_eq!(resolve_label("aws-ecs-2cpu-4mem-45m"), Some(profile(2048, 4096, 20, 45)));
}

#[test]
fn label_outside_the_table_decodes_by_the_grammar() {
    assert_eq!(resolve_label("aws-ecs-1cpu-2mem-100disk-90m"), Some(profile(1024, 2048, 100, 90)));
    assert_eq!(lookup_chars(&"aws-ecs-1cpu-2mem-100disk-90m".chars().collect::<Vec<char>>()), None);
}

#[test]
fn every_table_entry_decodes_by_the_grammar_to_its_profile() {
    let table = compatibility_table();
    assert_eq!(table.len(), 9);
    for entry in table.iter() {
        let chars: Vec<char> = entry.label.chars().collect();
        assert_eq!(decode_chars(&chars), Some(entry.profile));
        assert_eq!(parse_label(entry.label), Some(entry.profile));
        assert_eq!(lookup_chars(&chars), Some(entry.profile));
        assert_eq!(resolve_label(entry.label), Some(entry.profile));
    }
}

#[test]
fn table_holds_the_labels_in_use() {
    let table = compatibility_table();
    let expected = [
        ("aws-ecs-16cpu-64mem-30m", profile(16384, 65536, 20, 30)),
        ("aws-ecs-16cpu-64mem-20disk-30m", profile(16384, 65536, 20, 30)),
        ("aws-ecs-16cpu-64mem-30disk-30m", profile(16384, 65536, 30, 30)),
        ("aws-ecs-16cpu-64mem-40disk-30m", profile(16384, 65536, 40, 30)),
        ("aws-ecs-16cpu-32mem-20disk-30m", profile(16384, 32768, 20, 30)),
        ("aws-ecs-16cpu-24mem-20disk-30m", profile(16384, 24576, 20, 30)),
        ("aws-ecs-16cpu-16mem-20disk-30m", profile(16384, 16384, 20, 30)),
        ("aws-ecs-12cpu-8mem-20disk-30m", profile(12288, 8192, 20, 30)),
        ("aws-ecs-8cpu-8mem-20disk-30m", profile(8192, 8192, 20, 30)),
    ];
    assert_eq!(table.len(), expected.len());
    for (entry, (label, profile)) in table.iter().zip(expected.iter()) {
        assert_eq!(entry.label, *label);
        assert_eq!(entry.profile, *profile);
    }
}

#[test]
fn canonical_label_is_the_form_with_disk() {
    assert_eq!(canonical_label(&profile(16384, 65536, 20, 30)), "aws-ecs-16cpu-64mem-20disk-30m");
    assert_eq!(canonical_label(&profile(1024, 2048, 0, 0)), "aws-ecs-1cpu-2mem-0disk-0m");
    assert_eq!(
        canonical_label(&profile(2147482624, 1024, 2147483647, 2147483647)),
        "aws-ecs-2097151cpu-1mem-2147483647disk-2147483647m"
    );
}

#[test]
fn decoding_and_writing_again_keeps_the_amounts() {
    let labels = [
        "aws-ecs-16cpu-64mem-20disk-30m",
        "aws-ecs-16cpu-64mem-30m",
        "aws-ecs-007cpu-08mem-0021disk-010m",
        "aws-ecs-2097151cpu-2097151mem-2147483647disk-2147483647m",
        "aws-ecs-1cpu-1mem-0disk-0m",
    ];
    for label in labels.iter() {
        let decoded = resolve_label(label).unwrap();
        let written = canonical_label(&decoded);
        assert_eq!(resolve_label(&written), Some(decoded));
    }
    assert_eq!(
        canonical_label(&resolve_label("aws-ecs-16cpu-64mem-30m").unwrap()),
        "aws-ecs-16cpu-64mem-20disk-30m"
    );
}

#[test]
fn leading_zeros_are_read() {
    assert_eq!(resolve_label("aws-ecs-007cpu-08mem-0021disk-010m"), Some(profile(7168, 8192, 21, 10)));
}

#[test]
fn zero_cpu_or_memory_is_rejected() {
    assert_eq!(resolve_label("aws-ecs-0cpu-64mem-20disk-30m"), None);
    assert_eq!(resolve_label("aws-ecs-16cpu-0mem-20disk-30m"), None);
    assert_eq!(resolve_label("aws-ecs-16cpu-00mem-30m"), None);
    assert_eq!(resolve_label("aws-ecs-1cpu-1mem-0disk-0m"), Some(profile(1024, 1024, 0, 0)));
}

#[test]
fn amounts_that_do_not_fit_are_rejected() {
    assert_eq!(
        resolve_label("aws-ecs-2097151cpu-2097151mem-2147483647disk-2147483647m"),
        Some(profile(2147482624, 2147482624, 2147483647, 2147483647))
    );
    assert_eq!(resolve_label("aws-ecs-2097152cpu-1mem-20disk-30m"), None);
    assert_eq!(resolve_label("aws-ecs-1cpu-2097152mem-20disk-30m"), None);
    assert_eq!(resolve_label("aws-ecs-1cpu-1mem-2147483648disk-30m"), None);
    assert_eq!(resolve_label("aws-ecs-1cpu-1mem-20disk-2147483648m"), None);
    assert_eq!(resolve_label("aws-ecs-99999999999999999999999999cpu-1mem-20disk-30m"), None);
    assert_eq!(resolve_label("aws-ecs-1cpu-1mem-20disk-18446744073709551617m"), None);
}

#[test]
fn fractions_and_signs_are_no_numbers() {
    assert_eq!(resolve_label("aws-ecs-0.25cpu-0.5mem-30m"), None);
    assert_eq!(resolve_label("aws-ecs-+1cpu-1mem-20disk-30m"), None);
    assert_eq!(resolve_label("aws-ecs- 1cpu-1mem-20disk-30m"), None);
    assert_eq!(resolve_label("aws-ecs--1cpu-1mem-20disk-30m"), None);
}

#[test]
fn wrong_prefix_or_segment_count_is_rejected() {
    assert_eq!(resolve_label(""), None);
    assert_eq!(resolve_label("aws-ecs-"), None);
    assert_eq!(resolve_label("aws-ecs-16cpu-64mem"), None);
    assert_eq!(resolve_label("aws-ecs-16cpu-64mem-20disk-30m-"), None);
    assert_eq!(resolve_label("aws-ecs-16cpu-64mem-20disk-30m-extra"), None);
    assert_eq!(resolve_label("-aws-ecs-16cpu-64mem-20disk-30m"), None);
    assert_eq!(resolve_label("aws-eks-16cpu-64mem-20disk-30m"), None);
    assert_eq!(resolve_label("AWS-ECS-16cpu-64mem-20disk-30m"), None);
    assert_eq!(resolve_label("gcp-ecs-16cpu-64mem-30m"), None);
    assert_eq!(resolve_label("self-hosted"), None);
}

#[test]
fn segments_in_another_order_or_unit_are_rejected() {
    assert_eq!(resolve_label("aws-ecs-64mem-16cpu-20disk-30m"), None);
    assert_eq!(resolve_label("aws-ecs-16cpu-64mem-30m-20disk"), None);
    assert_eq!(resolve_label("aws-ecs-16cpu-64mem-20disk-30s"), None);
    assert_eq!(resolve_label("aws-ecs-16cpu-64mem-20disk-30"), None);
    assert_eq!(resolve_label("aws-ecs-16cpu-64mem-20gb-30m"), None);
    assert_eq!(resolve_label("aws-ecs-16cpus-64mem-20disk-30m"), None);
}

#[test]
fn text_outside_ascii_is_rejected() {
    assert_eq!(resolve_label("aws-ecs-\u{ff11}\u{ff16}cpu-64mem-20disk-30m"), None);
    assert_eq!(resolve_label("aws-ecs-16cpu-64mem-20disk-30m\u{e9}"), None);
    assert_eq!(resolve_label("\u{e9}"), None);
}
