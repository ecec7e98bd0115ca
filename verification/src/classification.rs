//! Classifies clipboard text by what it looks like.
use vstd::prelude::*;

use crate::class::ContentType;
use crate::text::{chars_of, contains_chars, contains_seq, lines, split_lines, starts_with_chars, starts_with_seq, string_from_chars, law_trim_idempotent, trim, trim_chars};

verus! {

/// Whether the `regex` crate accepts `pattern` (`Regex::new` succeeds).
pub uninterp spec fn regex_compiles(pattern: Seq<char>) -> bool;

/// What `Regex::is_match` answers for the compiled `pattern` on `text`.
pub uninterp spec fn regex_is_match(pattern: Seq<char>, text: Seq<char>) -> bool;

/// What `Regex::replace_all` gives for the compiled `pattern` on `text`
/// with the replacement `rep`.
pub uninterp spec fn regex_replace_all(pattern: Seq<char>, text: Seq<char>, rep: Seq<char>) -> Seq<char>;

/// Compiles `pattern` with `regex::Regex::new` and asks `Regex::is_match`
/// about `text`; `None` where the pattern does not compile.
#[verifier::external_body]
pub(crate) fn regex_matches(pattern: &str, text: &str) -> (r: Option<bool>)
    ensures
        r is Some <==> regex_compiles(pattern@),
        r matches Some(b) ==> b == regex_is_match(pattern@, text@),
{
    match regex::Regex::new(pattern) {
        Ok(re) => Some(re.is_match(text)),
        Err(_) => None,
    }
}

/// Compiles `pattern` with `regex::Regex::new` and applies
/// `Regex::replace_all` to `text` with `rep`; `None` where the pattern
/// does not compile.
#[verifier::external_body]
pub(crate) fn regex_replace(pattern: &str, text: &str, rep: &str) -> (r: Option<String>)
    ensures
        r is Some <==> regex_compiles(pattern@),
        r matches Some(s) ==> s@ == regex_replace_all(pattern@, text@, rep@),
{
    match regex::Regex::new(pattern) {
        Ok(re) => Some(re.replace_all(text, rep).into_owned()),
        Err(_) => None,
    }
}

/// Whether `text` matches `pattern`, counting a pattern that does not
/// compile as matching nothing.
pub open spec fn pattern_matches(pattern: Seq<char>, text: Seq<char>) -> bool {
    regex_compiles(pattern) && regex_is_match(pattern, text)
}

fn matches_pattern(pattern: &str, text: &str) -> (r: bool)
    ensures
        r == pattern_matches(pattern@, text@),
{
    match regex_matches(pattern, text) {
        Some(b) => b,
        None => false,
    }
}

/// A web address, with or without its scheme.
pub const URL_PATTERN: &'static str = r"^(https?://)?([a-zA-Z0-9-]+\.)+[a-zA-Z]{2,}(/[^\s]*)?$";

/// An e-mail address.
pub const EMAIL_PATTERN: &'static str = r"^[a-zA-Z0-9._%+-]+@[a-zA-Z0-9.-]+\.[a-zA-Z]{2,}$";

/// A phone number: 7 to 20 digits, spaces, dashes and parentheses.
pub const PHONE_PATTERN: &'static str = r"^\+?[0-9\s\-\(\)]{7,20}$";

/// A path that starts with a drive letter.
pub const WINDOWS_PATH_PATTERN: &'static str = r"^[a-zA-Z]:\\";

/// An absolute Unix path.
pub const UNIX_PATH_PATTERN: &'static str = r"^/[^/]";

/// Calls `std::path::Path::exists`. What is on disk decides the answer,
/// so nothing is promised of it.
#[verifier::external_body]
fn path_exists(text: &str) -> (r: bool) {
    std::path::Path::new(text).exists()
}

/// The prefixes of common shell commands.
pub open spec fn command_prefixes() -> Seq<Seq<char>> {
    seq![
        "git "@, "npm "@, "pnpm "@, "yarn "@, "cargo "@, "docker "@, "kubectl "@, "brew "@,
        "ssh "@, "curl "@, "wget "@, "cd "@, "ls"@, "mkdir "@, "rm "@, "cp "@, "mv "@,
    ]
}

/// Fragments that mark source code.
pub open spec fn code_patterns() -> Seq<Seq<char>> {
    seq![
        "fn "@, "function "@, "class "@, "struct "@, "impl "@, "interface "@, "const "@,
        "let "@, "var "@, "public "@, "private "@, "import "@, "export "@, "#include"@,
        "use "@, "=>"@, "{}"@, "();"@,
    ]
}

/// Text that begins like a shell command.
pub open spec fn looks_like_command(t: Seq<char>) -> bool {
    exists|i: int| 0 <= i < command_prefixes().len() && starts_with_seq(t, #[trigger] command_prefixes()[i])
}

/// How many of `ps` occur in `t`.
pub open spec fn count_contained(t: Seq<char>, ps: Seq<Seq<char>>) -> nat
    decreases ps.len(),
{
    if ps.len() == 0 {
        0
    } else {
        count_contained(t, ps.drop_last()) + if contains_seq(t, ps.last()) {
            1nat
        } else {
            0nat
        }
    }
}

/// Text that holds at least two code fragments, or more than three lines.
pub open spec fn looks_like_code(t: Seq<char>) -> bool {
    count_contained(t, code_patterns()) >= 2 || lines(t).len() > 3
}

/// Text that is written like a file path.
pub open spec fn path_syntax(t: Seq<char>) -> bool {
    pattern_matches(WINDOWS_PATH_PATTERN@, t) || pattern_matches(UNIX_PATH_PATTERN@, t)
}

/// The kind of the trimmed text `t`, where `on_disk` says whether `t`
/// names an existing file: the first that applies of URL, e-mail address,
/// phone number, file path, shell command and code; otherwise plain text.
pub open spec fn classification(t: Seq<char>, on_disk: bool) -> ContentType {
    if t.len() == 0 {
        ContentType::Text
    } else if pattern_matches(URL_PATTERN@, t) {
        ContentType::Url
    } else if pattern_matches(EMAIL_PATTERN@, t) {
        ContentType::Email
    } else if pattern_matches(PHONE_PATTERN@, t) {
        ContentType::PhoneNumber
    } else if path_syntax(t) || on_disk {
        ContentType::FilePath
    } else if looks_like_command(t) {
        ContentType::Command
    } else if looks_like_code(t) {
        ContentType::Code
    } else {
        ContentType::Text
    }
}

fn is_command(text: &[char]) -> (r: bool)
    ensures
        r == looks_like_command(text@),
{
    let common_commands = vec![
        "git ", "npm ", "pnpm ", "yarn ", "cargo ", "docker ", "kubectl ", "brew ", "ssh ",
        "curl ", "wget ", "cd ", "ls", "mkdir ", "rm ", "cp ", "mv ",
    ];
    assert(common_commands@.len() == command_prefixes().len());
    let mut i: usize = 0;
    while i < common_commands.len()
        invariant
            i <= common_commands@.len(),
            common_commands@.len() == command_prefixes().len(),
            forall|k: int| 0 <= k < command_prefixes().len() ==> #[trigger] common_commands@[k]@ == command_prefixes()[k],
            forall|k: int| 0 <= k < i ==> !starts_with_seq(text@, #[trigger] command_prefixes()[k]),
        decreases common_commands@.len() - i,
    {
        let p = chars_of(common_commands[i]);
        if starts_with_chars(text, p.as_slice()) {
            return true;
        }
        i = i + 1;
    }
    false
}

fn is_code(text: &[char]) -> (r: bool)
    ensures
        r == looks_like_code(text@),
{
    let patterns = vec![
        "fn ", "function ", "class ", "struct ", "impl ", "interface ", "const ", "let ", "var ",
        "public ", "private ", "import ", "export ", "#include", "use ", "=>", "{}", "();",
    ];
    assert(patterns@.len() == code_patterns().len());
    let mut hits: usize = 0;
    let mut i: usize = 0;
    while i < patterns.len()
        invariant
            i <= patterns@.len(),
            patterns@.len() == code_patterns().len(),
            forall|k: int| 0 <= k < code_patterns().len() ==> #[trigger] patterns@[k]@ == code_patterns()[k],
            hits == count_contained(text@, code_patterns().take(i as int)),
            hits <= i,
        decreases patterns@.len() - i,
    {
        let p = chars_of(patterns[i]);
        let ghost ps = code_patterns().take(i + 1);
        assert(ps.drop_last() =~= code_patterns().take(i as int));
        assert(ps.last() == code_patterns()[i as int]);
        if contains_chars(text, p.as_slice()) {
            hits = hits + 1;
        }
        i = i + 1;
    }
    assert(code_patterns().take(code_patterns().len() as int) =~= code_patterns());
    let ls = split_lines(text);
    hits >= 2 || ls.len() > 3
}

/// Which of the text patterns the trimmed text matches.
#[derive(Debug, Clone, Copy, PartialEq, Eq, Structural)]
pub struct PatternMatches {
    pub url: bool,
    pub email: bool,
    pub phone_number: bool,
    /// A Windows drive path or an absolute Unix path.
    pub file_path: bool,
}

/// The patterns that the trimmed text `t` matches.
pub open spec fn pattern_matches_of(t: Seq<char>) -> PatternMatches {
    PatternMatches {
        url: pattern_matches(URL_PATTERN@, t),
        email: pattern_matches(EMAIL_PATTERN@, t),
        phone_number: pattern_matches(PHONE_PATTERN@, t),
        file_path: path_syntax(t),
    }
}

/// The kind of the trimmed text `t` given the patterns it matches and
/// whether it names an existing file.
pub open spec fn classification_given(t: Seq<char>, m: PatternMatches, on_disk: bool) -> ContentType {
    if t.len() == 0 {
        ContentType::Text
    } else if m.url {
        ContentType::Url
    } else if m.email {
        ContentType::Email
    } else if m.phone_number {
        ContentType::PhoneNumber
    } else if m.file_path || on_disk {
        ContentType::FilePath
    } else if looks_like_command(t) {
        ContentType::Command
    } else if looks_like_code(t) {
        ContentType::Code
    } else {
        ContentType::Text
    }
}

/// The kind of `content` once trimmed, given the patterns that the trimmed
/// text matches and whether it names an existing file: the first that
/// applies of URL, e-mail address, phone number, file path, shell command
/// and code; otherwise plain text.
pub fn classify_given_matches(content: &str, m: PatternMatches, on_disk: bool) -> (r: ContentType)
    ensures
        r == classification_given(trim(content@), m, on_disk),
{
    let cs = chars_of(content);
    let t = trim_chars(cs.as_slice());
    if t.len() == 0 {
        ContentType::Text
    } else if m.url {
        ContentType::Url
    } else if m.email {
        ContentType::Email
    } else if m.phone_number {
        ContentType::PhoneNumber
    } else if m.file_path || on_disk {
        ContentType::FilePath
    } else if is_command(t.as_slice()) {
        ContentType::Command
    } else if is_code(t.as_slice()) {
        ContentType::Code
    } else {
        ContentType::Text
    }
}

/// The patterns that `content`, once trimmed, matches.
pub fn match_patterns(content: &str) -> (r: PatternMatches)
    ensures
        r == pattern_matches_of(trim(content@)),
{
    let cs = chars_of(content);
    let t = trim_chars(cs.as_slice());
    let ts = string_from_chars(t.as_slice());
    let text = ts.as_str();
    PatternMatches {
        url: matches_pattern(URL_PATTERN, text),
        email: matches_pattern(EMAIL_PATTERN, text),
        phone_number: matches_pattern(PHONE_PATTERN, text),
        file_path: matches_pattern(WINDOWS_PATH_PATTERN, text) || matches_pattern(UNIX_PATH_PATTERN, text),
    }
}

/// The kind of `content` once trimmed, where `on_disk` says whether the
/// trimmed text names an existing file.
pub fn classify_with_disk_answer(content: &str, on_disk: bool) -> (r: ContentType)
    ensures
        r == classification(trim(content@), on_disk),
{
    let m = match_patterns(content);
    classify_given_matches(content, m, on_disk)
}

/// Classifies `content` by what it looks like once trimmed. Whether the
/// text names an existing file is asked of the file system only where
/// the patterns do not decide.
pub fn classify_text(content: &str) -> (r: ContentType)
    ensures
        exists|on_disk: bool| r == classification(trim(content@), on_disk),
{
    let m = match_patterns(content);
    let decided = m.url || m.email || m.phone_number || m.file_path;
    let on_disk = if decided {
        false
    } else {
        let cs = chars_of(content);
        let t = trim_chars(cs.as_slice());
        if t.len() == 0 {
            false
        } else {
            let ts = string_from_chars(t.as_slice());
            path_exists(ts.as_str())
        }
    };
    let r = classify_given_matches(content, m, on_disk);
    assert(r == classification(trim(content@), on_disk));
    r
}

/// Classification looks only at the trimmed text: surrounding whitespace
/// changes nothing, and text that is only whitespace is plain text.
pub proof fn law_classification_ignores_surrounding_space(s: Seq<char>, on_disk: bool)
    ensures
        classification(trim(trim(s)), on_disk) == classification(trim(s), on_disk),
        trim(s).len() == 0 ==> classification(trim(s), on_disk) == ContentType::Text,
{
    law_trim_idempotent(s);
}

/// Whether `t` begins with one of the common shell commands: `git`, `npm`,
/// `pnpm`, `yarn`, `cargo`, `docker`, `kubectl`, `brew`, `ssh`, `curl`,
/// `wget`, `cd`, `mkdir`, `rm`, `cp` or `mv` followed by a space, or `ls`.
pub open spec fn starts_with_shell_command(t: Seq<char>) -> bool {
    ||| starts_with_seq(t, "git "@)
    ||| starts_with_seq(t, "npm "@)
    ||| starts_with_seq(t, "pnpm "@)
    ||| starts_with_seq(t, "yarn "@)
    ||| starts_with_seq(t, "cargo "@)
    ||| starts_with_seq(t, "docker "@)
    ||| starts_with_seq(t, "kubectl "@)
    ||| starts_with_seq(t, "brew "@)
    ||| starts_with_seq(t, "ssh "@)
    ||| starts_with_seq(t, "curl "@)
    ||| starts_with_seq(t, "wget "@)
    ||| starts_with_seq(t, "cd "@)
    ||| starts_with_seq(t, "ls"@)
    ||| starts_with_seq(t, "mkdir "@)
    ||| starts_with_seq(t, "rm "@)
    ||| starts_with_seq(t, "cp "@)
    ||| starts_with_seq(t, "mv "@)
}

/// Text looks like a shell command exactly when it begins with one of the
/// common shell commands.
pub proof fn law_shell_command_prefixes(t: Seq<char>)
    ensures
        looks_like_command(t) <==> starts_with_shell_command(t),
{
    assert(command_prefixes()[0] == "git "@);
    assert(command_prefixes()[1] == "npm "@);
    assert(command_prefixes()[2] == "pnpm "@);
    assert(command_prefixes()[3] == "yarn "@);
    assert(command_prefixes()[4] == "cargo "@);
    assert(command_prefixes()[5] == "docker "@);
    assert(command_prefixes()[6] == "kubectl "@);
    assert(command_prefixes()[7] == "brew "@);
    assert(command_prefixes()[8] == "ssh "@);
    assert(command_prefixes()[9] == "curl "@);
    assert(command_prefixes()[10] == "wget "@);
    assert(command_prefixes()[11] == "cd "@);
    assert(command_prefixes()[12] == "ls"@);
    assert(command_prefixes()[13] == "mkdir "@);
    assert(command_prefixes()[14] == "rm "@);
    assert(command_prefixes()[15] == "cp "@);
    assert(command_prefixes()[16] == "mv "@);
    assert(command_prefixes().len() == 17);
    if starts_with_shell_command(t) {
        assert(exists|i: int| 0 <= i < command_prefixes().len() && starts_with_seq(t, #[trigger] command_prefixes()[i]));
    }
}

/// Trimmed text that is no URL, e-mail address, phone number or file path
/// is classified as a shell command exactly when it begins with one of the
/// common shell commands.
pub proof fn law_shell_commands_are_commands(t: Seq<char>, on_disk: bool)
    requires
        t.len() > 0,
        !pattern_matches(URL_PATTERN@, t),
        !pattern_matches(EMAIL_PATTERN@, t),
        !pattern_matches(PHONE_PATTERN@, t),
        !pattern_matches(WINDOWS_PATH_PATTERN@, t),
        !pattern_matches(UNIX_PATH_PATTERN@, t),
        !on_disk,
    ensures
        classification(t, on_disk) == ContentType::Command <==> starts_with_shell_command(t),
{
    law_shell_command_prefixes(t);
}

/// One where `p` occurs in `t`, zero otherwise.
pub open spec fn hit(t: Seq<char>, p: Seq<char>) -> nat {
    if contains_seq(t, p) {
        1
    } else {
        0
    }
}

/// The number of code fragments in `t`: each of `fn `, `function `,
/// `class `, `struct `, `impl `, `interface `, `const `, `let `, `var `,
/// `public `, `private `, `import `, `export `, `#include`, `use `, `=>`,
/// `{}` and `();` that occurs in it counts once.
pub open spec fn code_fragment_count(t: Seq<char>) -> nat {
    hit(t, "fn "@) + hit(t, "function "@) + hit(t, "class "@) + hit(t, "struct "@) + hit(t, "impl "@) + hit(t, "interface "@) + hit(t, "const "@) + hit(t, "let "@) + hit(t, "var "@) + hit(t, "public "@) + hit(t, "private "@) + hit(t, "import "@) + hit(t, "export "@) + hit(t, "#include"@) + hit(t, "use "@) + hit(t, "=>"@) + hit(t, "{}"@) + hit(t, "();"@)
}

/// Text looks like code exactly when at least two of the code fragments
/// occur in it, or it has more than three lines.
pub proof fn law_code_fragments(t: Seq<char>)
    ensures
        looks_like_code(t) <==> (code_fragment_count(t) >= 2 || lines(t).len() > 3),
{
    assert(code_patterns()[0] == "fn "@);
    assert(code_patterns()[1] == "function "@);
    assert(code_patterns()[2] == "class "@);
    assert(code_patterns()[3] == "struct "@);
    assert(code_patterns()[4] == "impl "@);
    assert(code_patterns()[5] == "interface "@);
    assert(code_patterns()[6] == "const "@);
    assert(code_patterns()[7] == "let "@);
    assert(code_patterns()[8] == "var "@);
    assert(code_patterns()[9] == "public "@);
    assert(code_patterns()[10] == "private "@);
    assert(code_patterns()[11] == "import "@);
    assert(code_patterns()[12] == "export "@);
    assert(code_patterns()[13] == "#include"@);
    assert(code_patterns()[14] == "use "@);
    assert(code_patterns()[15] == "=>"@);
    assert(code_patterns()[16] == "{}"@);
    assert(code_patterns()[17] == "();"@);
    assert(code_patterns().len() == 18);
    reveal_with_fuel(count_contained, 19);
    let ps = code_patterns();
    assert(ps.take(18).drop_last() =~= ps.take(17));
    assert(ps.take(18).last() == ps[17]);
    assert(ps.take(17).drop_last() =~= ps.take(16));
    assert(ps.take(17).last() == ps[16]);
    assert(ps.take(16).drop_last() =~= ps.take(15));
    assert(ps.take(16).last() == ps[15]);
    assert(ps.take(15).drop_last() =~= ps.take(14));
    assert(ps.take(15).last() == ps[14]);
    assert(ps.take(14).drop_last() =~= ps.take(13));
    assert(ps.take(14).last() == ps[13]);
    assert(ps.take(13).drop_last() =~= ps.take(12));
    assert(ps.take(13).last() == ps[12]);
    assert(ps.take(12).drop_last() =~= ps.take(11));
    assert(ps.take(12).last() == ps[11]);
    assert(ps.take(11).drop_last() =~= ps.take(10));
    assert(ps.take(11).last() == ps[10]);
    assert(ps.take(10).drop_last() =~= ps.take(9));
    assert(ps.take(10).last() == ps[9]);
    assert(ps.take(9).drop_last() =~= ps.take(8));
    assert(ps.take(9).last() == ps[8]);
    assert(ps.take(8).drop_last() =~= ps.take(7));
    assert(ps.take(8).last() == ps[7]);
    assert(ps.take(7).drop_last() =~= ps.take(6));
    assert(ps.take(7).last() == ps[6]);
    assert(ps.take(6).drop_last() =~= ps.take(5));
    assert(ps.take(6).last() == ps[5]);
    assert(ps.take(5).drop_last() =~= ps.take(4));
    assert(ps.take(5).last() == ps[4]);
    assert(ps.take(4).drop_last() =~= ps.take(3));
    assert(ps.take(4).last() == ps[3]);
    assert(ps.take(3).drop_last() =~= ps.take(2));
    assert(ps.take(3).last() == ps[2]);
    assert(ps.take(2).drop_last() =~= ps.take(1));
    assert(ps.take(2).last() == ps[1]);
    assert(ps.take(1).drop_last() =~= ps.take(0));
    assert(ps.take(1).last() == ps[0]);
    assert(ps.take(18) =~= ps);
    assert(count_contained(t, ps.take(1)) == count_contained(t, ps.take(0)) + hit(t, ps[0]));
    assert(count_contained(t, ps.take(2)) == count_contained(t, ps.take(1)) + hit(t, ps[1]));
    assert(count_contained(t, ps.take(3)) == count_contained(t, ps.take(2)) + hit(t, ps[2]));
    assert(count_contained(t, ps.take(4)) == count_contained(t, ps.take(3)) + hit(t, ps[3]));
    assert(count_contained(t, ps.take(5)) == count_contained(t, ps.take(4)) + hit(t, ps[4]));
    assert(count_contained(t, ps.take(6)) == count_contained(t, ps.take(5)) + hit(t, ps[5]));
    assert(count_contained(t, ps.take(7)) == count_contained(t, ps.take(6)) + hit(t, ps[6]));
    assert(count_contained(t, ps.take(8)) == count_contained(t, ps.take(7)) + hit(t, ps[7]));
    assert(count_contained(t, ps.take(9)) == count_contained(t, ps.take(8)) + hit(t, ps[8]));
    assert(count_contained(t, ps.take(10)) == count_contained(t, ps.take(9)) + hit(t, ps[9]));
    assert(count_contained(t, ps.take(11)) == count_contained(t, ps.take(10)) + hit(t, ps[10]));
    assert(count_contained(t, ps.take(12)) == count_contained(t, ps.take(11)) + hit(t, ps[11]));
    assert(count_contained(t, ps.take(13)) == count_contained(t, ps.take(12)) + hit(t, ps[12]));
    assert(count_contained(t, ps.take(14)) == count_contained(t, ps.take(13)) + hit(t, ps[13]));
    assert(count_contained(t, ps.take(15)) == count_contained(t, ps.take(14)) + hit(t, ps[14]));
    assert(count_contained(t, ps.take(16)) == count_contained(t, ps.take(15)) + hit(t, ps[15]));
    assert(count_contained(t, ps.take(17)) == count_contained(t, ps.take(16)) + hit(t, ps[16]));
    assert(count_contained(t, ps.take(18)) == count_contained(t, ps.take(17)) + hit(t, ps[17]));
}

} // verus!
