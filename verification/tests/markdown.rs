use ef_core::markdown::{classify, numbered, split_inline, Block, Style};

#[test]
fn plain_text_is_one_run() {
    assert_eq!(split_inline("hello world"), vec![(Style::Plain, "hello world")]);
}

#[test]
fn bold_wins_over_italic_for_a_double_star() {
    assert_eq!(
        split_inline("a **b** c"),
        vec![(Style::Plain, "a "), (Style::Bold, "b"), (Style::Plain, " c")]
    );
}

#[test]
fn code_spans_are_recognised() {
    assert_eq!(
        split_inline("use `INCLUDE 'X.INC'` here"),
        vec![(Style::Plain, "use "), (Style::Code, "INCLUDE 'X.INC'"), (Style::Plain, " here")]
    );
}

#[test]
fn an_unpaired_delimiter_is_literal_and_does_not_loop_forever() {
    assert_eq!(split_inline("2 * 3 = 6"), vec![(Style::Plain, "2 * 3 = 6")]);
    assert_eq!(split_inline("**oops"), vec![(Style::Plain, "**oops")]);
}

#[test]
fn vietnamese_text_survives_splitting() {
    let runs = split_inline("Bấm **Biên dịch và chạy** để bắt đầu");
    assert_eq!(runs[1], (Style::Bold, "Biên dịch và chạy"));
}

#[test]
fn numbered_list_items_are_detected() {
    assert_eq!(numbered("1. First step"), Some((1, "First step")));
    assert_eq!(numbered("not a list"), None);
}

#[test]
fn italics_and_empty_runs() {
    assert_eq!(
        split_inline("for example *Beam calculation*."),
        vec![(Style::Plain, "for example "), (Style::Italic, "Beam calculation"), (Style::Plain, ".")]
    );
    assert_eq!(split_inline("****"), vec![]);
    assert_eq!(split_inline(""), vec![]);
}

#[test]
fn a_number_too_big_or_not_a_number_is_no_list_item() {
    assert_eq!(numbered("99999999999. x"), None);
    assert_eq!(numbered("1x. y"), None);
    assert_eq!(numbered(" 12 . y"), Some((12, "y")));
    assert_eq!(numbered(" 12. y"), Some((12, "y")));
}

#[test]
fn lines_are_classified_deepest_heading_first() {
    assert_eq!(classify("### Three"), Block::Subsection("Three"));
    assert_eq!(classify("## Two  "), Block::Section("Two"));
    assert_eq!(classify("# One"), Block::Title("One"));
    assert_eq!(classify("- item"), Block::Bullet("item"));
    assert_eq!(classify("2. second"), Block::Numbered(2, "second"));
    assert_eq!(classify("   \r"), Block::Blank);
    assert_eq!(classify("#hashtag"), Block::Paragraph("#hashtag"));
}
