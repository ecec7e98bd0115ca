use recall::class::ContentType;
use recall::classification::{classify_given_matches, classify_text, classify_with_disk_answer, match_patterns, PatternMatches};

#[test]
fn classifies_by_shape() {
    assert_eq!(classify_text("   "), ContentType::Text);
    assert_eq!(classify_text("https://example.com/a?b=c"), ContentType::Url);
    assert_eq!(classify_text("example.org"), ContentType::Url);
    assert_eq!(classify_text("someone@example.com"), ContentType::Email);
    assert_eq!(classify_text("+1 (555) 123-4567"), ContentType::PhoneNumber);
    assert_eq!(classify_text("C:\\Users\\me"), ContentType::FilePath);
    assert_eq!(classify_text("/usr/local/bin"), ContentType::FilePath);
    assert_eq!(classify_text("git status"), ContentType::Command);
    assert_eq!(classify_text("ls"), ContentType::Command);
    assert_eq!(classify_text("let x = 1; fn main() {}"), ContentType::Code);
    assert_eq!(classify_text("a\nb\nc\nd"), ContentType::Code);
    assert_eq!(classify_text("just some words"), ContentType::Text);
}

#[test]
fn disk_answer_only_matters_when_nothing_else_decides() {
    assert_eq!(classify_with_disk_answer("notes", true), ContentType::FilePath);
    assert_eq!(classify_with_disk_answer("notes", false), ContentType::Text);
    assert_eq!(classify_with_disk_answer("https://x.io", true), ContentType::Url);
    assert_eq!(classify_with_disk_answer("  \t", true), ContentType::Text);
}

#[test]
fn names_of_kinds() {
    assert_eq!(ContentType::PhoneNumber.as_str(), "phone_number");
    assert_eq!(ContentType::FilePath.as_str(), "file_path");
    assert_eq!(ContentType::Image.as_str(), "image");
    assert_eq!(ContentType::Code.as_str(), "code");
}

#[test]
fn classification_given_pattern_matches() {
    let none = PatternMatches { url: false, email: false, phone_number: false, file_path: false };
    let url = PatternMatches { url: true, ..none };
    let all = PatternMatches { url: true, email: true, phone_number: true, file_path: true };
    assert_eq!(classify_given_matches("x", all, true), ContentType::Url);
    assert_eq!(classify_given_matches(" ", url, true), ContentType::Text);
    assert_eq!(classify_given_matches("x", PatternMatches { email: true, phone_number: true, ..none }, false), ContentType::Email);
    assert_eq!(classify_given_matches("x", PatternMatches { phone_number: true, ..none }, false), ContentType::PhoneNumber);
    assert_eq!(classify_given_matches("npm i", none, true), ContentType::FilePath);
    assert_eq!(classify_given_matches("npm i", none, false), ContentType::Command);
    assert_eq!(classify_given_matches("import x; export y", none, false), ContentType::Code);
    assert_eq!(classify_given_matches("hello", none, false), ContentType::Text);
    assert_eq!(match_patterns("  a@b.co "), PatternMatches { email: true, ..none });
    assert_eq!(match_patterns("/tmp"), PatternMatches { file_path: true, ..none });
}

#[test]
fn existing_relative_paths_are_file_paths() {
    assert_eq!(classify_text("."), ContentType::FilePath);
    assert_eq!(classify_text("no-such-entry-here.tmp"), ContentType::Url);
    assert_eq!(classify_text("no such entry"), ContentType::Text);
}

#[test]
fn surrounding_space_does_not_change_the_kind() {
    for t in ["https://example.com", "a@b.co", "git status", "hello"] {
        let padded = format!("  {t}\n\t");
        assert_eq!(classify_with_disk_answer(&padded, false), classify_with_disk_answer(t, false));
    }
    assert_eq!(classify_with_disk_answer(" \n ", true), ContentType::Text);
}
