use astrcode::tool_artifacts::{
    artifact_write_step, background_task_output, background_window_slice, chars_in_chunk, ArtifactCreate,
    ArtifactWriteStep, MAX_ARTIFACT_NAME_ATTEMPTS, sanitize_for_filename, slice_tool_result, tool_result_file_name,
    tool_result_file_name_with_suffix, truncate_to_char_boundary,
};

#[test]
fn file_name_filters_path_segments() {
    assert_eq!(tool_result_file_name("shell/../../bad", "../call"), "shellbad-call.txt");
}

#[test]
fn slices_text_with_next_offset() {
    let slice = slice_tool_result("D:/sessions/session/tool-results/call.txt", "abcdef", 2, 3);
    assert_eq!(slice.content, "cde");
    assert_eq!(slice.next_char_offset, Some(5));
    assert!(slice.has_more);
}

#[test]
fn sanitize_keeps_at_most_64_chars_and_defaults_to_result() {
    assert_eq!(sanitize_for_filename("../../"), "result");
    let long = "a".repeat(70);
    assert_eq!(sanitize_for_filename(&long), "a".repeat(64));
    assert_eq!(sanitize_for_filename("Ab_9-z!"), "Ab_9-z");
}

#[test]
fn suffix_goes_before_extension() {
    assert_eq!(tool_result_file_name_with_suffix("shell", "c1", 0), "shell-c1.txt");
    assert_eq!(tool_result_file_name_with_suffix("shell", "c1", 3), "shell-c1-3.txt");
}

#[test]
fn last_page_has_no_next_offset() {
    let slice = slice_tool_result("p", "héllo", 3, 10);
    assert_eq!(slice.content, "lo");
    assert_eq!(slice.returned_chars, 2);
    assert_eq!(slice.next_char_offset, None);
    assert!(!slice.has_more);
    assert_eq!(slice.bytes, 6);
    let past = slice_tool_result("p", "abc", 9, 2);
    assert_eq!(past.content, "");
    assert_eq!(past.returned_chars, 0);
}

#[test]
fn truncation_respects_char_boundaries() {
    assert_eq!(truncate_to_char_boundary("abc", 10), "abc");
    assert_eq!(truncate_to_char_boundary("aé", 2), "a");
    assert_eq!(truncate_to_char_boundary("aé", 3), "aé");
}

#[test]
fn background_output_is_cut_with_note() {
    let (text, kept) = background_task_output("hello", 10);
    assert_eq!(text, "hello");
    assert_eq!(kept, 5);
    let big = "x".repeat(3000);
    let (text, kept) = background_task_output(&big, 2048);
    assert_eq!(kept, 2048);
    assert!(text.starts_with(&"x".repeat(2048)));
    assert!(text.ends_with("\n\n[output truncated: 2KB retained of 2KB total]"));
}

#[test]
fn window_pages_report_what_remains_on_disk() {
    let s = background_window_slice("t1", 100, 5, "abcdef", 10, 6, 3);
    assert_eq!(s.content, "abc");
    assert_eq!(s.returned_chars, 3);
    assert!(s.has_more);
    assert_eq!(s.next_char_offset, Some(8));
    let s = background_window_slice("t1", 16, 5, "abcdef", 10, 6, 10);
    assert_eq!(s.content, "abcdef");
    assert!(!s.has_more);
    assert_eq!(s.next_char_offset, None);
    let s = background_window_slice("t1", 17, 5, "abcdef", 10, 6, 10);
    assert!(s.has_more);
    assert_eq!(s.next_char_offset, Some(11));
    assert_eq!(s.bytes, 17);
    assert_eq!(s.char_offset, 5);
}

#[test]
fn chunk_skipping_counts_characters_not_bytes() {
    assert_eq!(chars_in_chunk("héllo", 2), (3, 2));
    assert_eq!(chars_in_chunk("héllo", 10), (6, 5));
    assert_eq!(chars_in_chunk("日本", 1), (3, 1));
    assert_eq!(chars_in_chunk("", 4), (0, 0));
}

#[test]
fn artifact_names_are_tried_in_order_until_the_limit() {
    assert_eq!(artifact_write_step(0, ArtifactCreate::Created), ArtifactWriteStep::Stored);
    assert_eq!(artifact_write_step(3, ArtifactCreate::ExistsSame), ArtifactWriteStep::Stored);
    assert_eq!(artifact_write_step(0, ArtifactCreate::ExistsDifferent), ArtifactWriteStep::TryNext(1));
    assert_eq!(
        artifact_write_step(MAX_ARTIFACT_NAME_ATTEMPTS - 1, ArtifactCreate::ExistsDifferent),
        ArtifactWriteStep::GiveUp
    );
    assert_eq!(MAX_ARTIFACT_NAME_ATTEMPTS, 1000);
}
