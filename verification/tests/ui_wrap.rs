use synthia::ui_text::{
    batch_may_continue, char_to_byte_pos, input_char_len, needs_wrapping, sanitize_text, wrap_single_line,
    wrap_text, BATCH_TIMEOUT_MS, MAX_BATCH_SIZE,
};

#[test]
fn test_word_wrapping_basic() {
    let text = "This is a very long line that should wrap properly at word boundaries";
    let wrapped = wrap_text(text, 20);

    assert!(!wrapped.contains("boun daries"));
    assert!(!wrapped.contains("wor d"));

    for line in wrapped.lines() {
        assert!(line.chars().count() <= 20, "Line too long: {}", line);
    }
}

#[test]
fn test_word_wrapping_exact_fit() {
    let text = "Hello world test wrap";
    let wrapped = wrap_text(text, 11);
    let lines: Vec<&str> = wrapped.lines().collect();
    assert_eq!(lines[0], "Hello world");
}

#[test]
fn test_long_word_wrapping() {
    let text = "Short https://verylongurlthatexceedsterminalwidthbyalot.com/path";
    let wrapped = wrap_text(text, 20);
    for line in wrapped.lines() {
        assert!(line.chars().count() <= 20, "Line too long: '{}' ({})", line, line.chars().count());
    }
    assert!(wrapped.lines().count() > 2);
}

#[test]
fn test_unicode_wrapping() {
    let text = "Hello 🦀 Rust 🌟 is 💯 awesome";
    let wrapped = wrap_text(text, 15);
    for line in wrapped.lines() {
        assert!(line.chars().count() <= 15, "Line too long: '{}' ({})", line, line.chars().count());
    }
    let lines: Vec<&str> = wrapped.lines().collect();
    assert_eq!(lines.len(), 2, "Expected 2 lines, got: {:?}", lines);
    assert_eq!(lines[0], "Hello 🦀 Rust 🌟");
    assert_eq!(lines[1], "is 💯 awesome");
}

#[test]
fn test_unicode_long_word() {
    let text = "日本語 https://example.com/very/long/path/that/exceeds/width テスト";
    let wrapped = wrap_text(text, 20);
    for line in wrapped.lines() {
        assert!(line.chars().count() <= 20, "Line too long: '{}' ({})", line, line.chars().count());
    }
}

#[test]
fn test_empty_text() {
    let wrapped = wrap_text("", 20);
    assert_eq!(wrapped, "");
}

#[test]
fn test_single_word() {
    let wrapped = wrap_text("Hello", 20);
    assert_eq!(wrapped, "Hello");
}

#[test]
fn test_single_long_word() {
    let word = "a".repeat(50);
    let wrapped = wrap_text(&word, 20);
    for line in wrapped.lines() {
        assert!(line.chars().count() <= 20);
    }
    assert_eq!(wrapped.lines().count(), 3);
}

#[test]
fn test_hash_wrapping() {
    let text = "Commit abc123def456ghi789jkl012mno345pqr678stu901vwx234yz567 found";
    let wrapped = wrap_text(text, 20);
    for line in wrapped.lines() {
        assert!(line.chars().count() <= 20, "Line too long: '{}' ({})", line, line.chars().count());
    }
}

#[test]
fn test_multiple_spaces() {
    let text = "Hello    world    test";
    let wrapped = wrap_text(text, 20);
    assert!(!wrapped.contains("  "));
}

#[test]
fn test_width_one() {
    let text = "abc";
    let wrapped = wrap_text(text, 1);
    assert_eq!(wrapped.lines().count(), 3);
    assert_eq!(wrapped, "a\nb\nc");
}

#[test]
fn test_real_world_flask_output() {
    let text = "The application is a TODO list manager using HTML templates and in-memory storage.";
    let wrapped = wrap_text(text, 40);
    assert!(!wrapped.contains("usin g"));
    assert!(!wrapped.contains("HT ML"));
    for line in wrapped.lines() {
        assert!(line.chars().count() <= 40);
    }
}

#[test]
fn test_batch_size_constant() {
    assert_eq!(MAX_BATCH_SIZE, 1000);
}

#[test]
fn test_batch_timeout_constant() {
    assert_eq!(BATCH_TIMEOUT_MS, 10);
}

#[test]
fn wrap_keeps_blank_lines_between_paragraphs() {
    let wrapped = wrap_text("one two\n\nthree", 5);
    assert_eq!(wrapped, "one\ntwo\n\nthree");
}

#[test]
fn wrap_single_line_breaks_long_word_into_chunks() {
    assert_eq!(wrap_single_line("abcdefg hi", 3), "abc\ndef\ng\nhi");
}

#[test]
fn wrap_single_line_of_blank_text_is_empty() {
    assert_eq!(wrap_single_line("   ", 5), "");
}

#[test]
fn wrapped_lines_fit_on_a_concrete_paragraph() {
    let wrapped = wrap_text("alpha beta gamma delta epsilon", 11);
    assert_eq!(wrapped, "alpha beta\ngamma delta\nepsilon");
    for line in wrapped.lines() {
        assert!(line.chars().count() <= 11);
    }
}

#[test]
fn sanitize_replaces_tabs_by_four_spaces() {
    assert_eq!(sanitize_text("a\tb\t"), "a    b    ");
    assert_eq!(sanitize_text("plain"), "plain");
}

#[test]
fn char_to_byte_pos_counts_utf8_bytes() {
    assert_eq!(char_to_byte_pos("héllo", 0), 0);
    assert_eq!(char_to_byte_pos("héllo", 2), 3);
    assert_eq!(char_to_byte_pos("a🦀b", 2), 5);
    assert_eq!(char_to_byte_pos("abc", 10), 3);
}

#[test]
fn input_char_len_counts_characters() {
    assert_eq!(input_char_len("日本語"), 3);
    assert_eq!(input_char_len(""), 0);
}

#[test]
fn batch_stops_at_size_or_timeout() {
    assert!(batch_may_continue(0, 0));
    assert!(batch_may_continue(999, 9));
    assert!(!batch_may_continue(1000, 0));
    assert!(!batch_may_continue(5, 10));
}

#[test]
fn wrapping_keeps_every_visible_character() {
    let text = "  some\twords   and averyveryverylongword here ";
    let wrapped = wrap_single_line(text, 6);
    let visible = |s: &str| s.chars().filter(|c| !c.is_whitespace()).collect::<String>();
    assert_eq!(visible(&wrapped), visible(text));
    assert!(!wrapped.contains("  "));
    assert_eq!(wrapped, "some\nwords\nand\naveryv\neryver\nylongw\nord\nhere");
}

#[test]
fn only_prose_lines_need_wrapping() {
    assert!(!needs_wrapping(""));
    assert!(!needs_wrapping("  \n\t\n"));
    assert!(!needs_wrapping("```\ncode here\n```"));
    assert!(needs_wrapping("```\ncode\n```\nprose"));
    assert!(needs_wrapping("word"));
}

#[test]
fn wrap_text_keeps_indentation() {
    assert_eq!(wrap_text("  - item", 20), "  - item");
    assert_eq!(wrap_text("    one two three", 10), "    one\ntwo\nthree");
    assert_eq!(wrap_text("top\n  nested   words", 40), "top\n  nested words");
    for line in wrap_text("    one two three four five six", 12).lines() {
        assert!(line.chars().count() <= 12);
    }
    // An indentation that leaves no room for a character is not kept.
    assert_eq!(wrap_text("     ab", 5), "ab");
}
