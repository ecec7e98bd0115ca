//! The representations a stored clipboard text can be copied back as.
use vstd::prelude::*;

use crate::classification::{regex_compiles, regex_replace, regex_replace_all};
use crate::text::{
    ascii_lowercase, ascii_lowercase_chars, chars_of, lines, split_lines, split_words,
    starts_with_chars, starts_with_seq, string_from_chars, to_lowercase_string, to_uppercase_string,
    trim, trim_chars, unicode_lowercase, unicode_uppercase, words, same_text,
};

verus! {

/// The representations a clip can be copied as.
#[derive(Clone, Copy, Debug, PartialEq, Eq, Structural)]
pub enum ClipboardFormat {
    Original,
    PlainText,
    Uppercase,
    Lowercase,
    RemoveFormatting,
    ConvertQuotes,
    StripTrackingParams,
}

/// `rep` for every match of `pattern` in `text`, or `text` unchanged where
/// the pattern does not compile.
pub open spec fn replace_or_keep(pattern: Seq<char>, text: Seq<char>, rep: Seq<char>) -> Seq<char> {
    if regex_compiles(pattern) {
        regex_replace_all(pattern, text, rep)
    } else {
        text
    }
}

fn replace_matches(pattern: &str, text: &str, rep: &str) -> (r: String)
    ensures
        r@ == replace_or_keep(pattern@, text@, rep@),
{
    match regex_replace(pattern, text, rep) {
        Some(s) => s,
        None => String::from_str(text),
    }
}

/// A markup tag.
pub const TAG_PATTERN: &'static str = r"<[^>]+>";

/// Two or more spaces and tabs.
pub const SPACE_RUN_PATTERN: &'static str = r"[ \t]{2,}";

/// A trimmed line without markup tags, and with runs of spaces and tabs
/// collapsed to one space.
pub open spec fn clean_line(line: Seq<char>) -> Seq<char> {
    replace_or_keep(SPACE_RUN_PATTERN@, replace_or_keep(TAG_PATTERN@, line, ""@), " "@)
}

/// The trimmed lines of `ls` that are not empty, cleaned.
pub open spec fn cleaned_lines(ls: Seq<Seq<char>>) -> Seq<Seq<char>>
    decreases ls.len(),
{
    if ls.len() == 0 {
        Seq::empty()
    } else {
        let rest = cleaned_lines(ls.drop_last());
        let t = trim(ls.last());
        if t.len() > 0 {
            rest.push(clean_line(t))
        } else {
            rest
        }
    }
}

/// The trimmed, non-empty lines of `ls`, in order.
pub open spec fn nonblank_lines(ls: Seq<Seq<char>>) -> Seq<Seq<char>>
    decreases ls.len(),
{
    if ls.len() == 0 {
        Seq::empty()
    } else if trim(ls.last()).len() > 0 {
        nonblank_lines(ls.drop_last()).push(trim(ls.last()))
    } else {
        nonblank_lines(ls.drop_last())
    }
}

/// Removing formatting works line by line on the trimmed lines that are not
/// blank, in order: from each, first every markup tag (a match of
/// `<[^>]+>`) is removed, and only then is every run of two or more spaces
/// and tabs (a match of `[ \t]{2,}`) replaced by one space, so that the
/// spaces around a removed tag collapse too.
pub proof fn law_tags_go_before_spaces_collapse(ls: Seq<Seq<char>>)
    ensures
        cleaned_lines(ls).len() == nonblank_lines(ls).len(),
        forall|i: int|
            0 <= i < cleaned_lines(ls).len() ==> #[trigger] cleaned_lines(ls)[i] == replace_or_keep(
                r"[ \t]{2,}"@,
                replace_or_keep(r"<[^>]+>"@, nonblank_lines(ls)[i], ""@),
                " "@,
            ),
    decreases ls.len(),
{
    if ls.len() > 0 {
        law_tags_go_before_spaces_collapse(ls.drop_last());
    }
}

/// The pieces of `ls` joined with `sep` between them.
pub open spec fn join_with(ls: Seq<Seq<char>>, sep: Seq<char>) -> Seq<char>
    decreases ls.len(),
{
    if ls.len() == 0 {
        Seq::empty()
    } else if ls.len() == 1 {
        ls[0]
    } else {
        join_with(ls.drop_last(), sep) + sep + ls.last()
    }
}

/// `content` with every line trimmed, empty lines dropped, markup tags
/// removed and runs of spaces collapsed.
pub open spec fn without_formatting(content: Seq<char>) -> Seq<char> {
    join_with(cleaned_lines(lines(content)), "\n"@)
}

fn append_chars(out: &mut Vec<char>, s: &[char])
    ensures
        final(out)@ == old(out)@ + s@,
{
    let mut i: usize = 0;
    while i < s.len()
        invariant
            i <= s@.len(),
            out@ == old(out)@ + s@.take(i as int),
        decreases s@.len() - i,
    {
        out.push(s[i]);
        i = i + 1;
        assert(out@ =~= old(out)@ + s@.take(i as int));
    }
    assert(s@.take(s@.len() as int) =~= s@);
}

/// Joins `parts` with `sep` between them.
fn join_chars(parts: &Vec<Vec<char>>, sep: &[char]) -> (r: Vec<char>)
    ensures
        r@ == join_with(parts@.map_values(|p: Vec<char>| p@), sep@),
{
    let ghost ps = parts@.map_values(|p: Vec<char>| p@);
    let mut out: Vec<char> = Vec::new();
    let mut i: usize = 0;
    while i < parts.len()
        invariant
            i <= parts@.len(),
            ps == parts@.map_values(|p: Vec<char>| p@),
            out@ == join_with(ps.take(i as int), sep@),
        decreases parts@.len() - i,
    {
        let ghost before = out@;
        if i > 0 {
            append_chars(&mut out, sep);
        }
        append_chars(&mut out, parts[i].as_slice());
        proof {
            let t = ps.take(i + 1);
            assert(t.drop_last() =~= ps.take(i as int));
            assert(t.last() == parts@[i as int]@);
            if i == 0 {
                assert(out@ =~= t[0]);
            } else {
                assert(out@ =~= join_with(t.drop_last(), sep@) + sep@ + t.last());
            }
        }
        i = i + 1;
    }
    assert(ps.take(parts@.len() as int) =~= ps);
    out
}

fn remove_formatting(content: &str) -> (r: String)
    ensures
        r@ == without_formatting(content@),
{
    let cs = chars_of(content);
    let ls = split_lines(cs.as_slice());
    let ghost lv = lines(content@);
    let mut kept: Vec<Vec<char>> = Vec::new();
    let mut i: usize = 0;
    while i < ls.len()
        invariant
            i <= ls@.len(),
            ls@.len() == lv.len(),
            lv == lines(content@),
            forall|k: int| 0 <= k < ls@.len() ==> #[trigger] ls@[k]@ == lv[k],
            kept@.map_values(|p: Vec<char>| p@) == cleaned_lines(lv.take(i as int)),
        decreases ls@.len() - i,
    {
        let t = trim_chars(ls[i].as_slice());
        let ghost before = kept@;
        let ghost lt = lv.take(i + 1);
        assert(lt.drop_last() =~= lv.take(i as int));
        assert(lt.last() == ls@[i as int]@);
        if t.len() > 0 {
            let line = string_from_chars(t.as_slice());
            let untagged = replace_matches(TAG_PATTERN, line.as_str(), "");
            let collapsed = replace_matches(SPACE_RUN_PATTERN, untagged.as_str(), " ");
            kept.push(chars_of(collapsed.as_str()));
            assert(kept@.map_values(|p: Vec<char>| p@) =~= before.map_values(|p: Vec<char>| p@).push(
                clean_line(trim(lt.last())),
            ));
        }
        i = i + 1;
    }
    assert(lv.take(ls@.len() as int) =~= lv);
    let nl = chars_of("\n");
    let joined = join_chars(&kept, nl.as_slice());
    string_from_chars(joined.as_slice())
}

/// Typographic single quotes become `'`, and typographic double quotes `"`.
pub open spec fn plain_quote(c: char) -> char {
    if c == '\u{2018}' || c == '\u{2019}' || c == '\u{201A}' || c == '\u{201B}' {
        '\''
    } else if c == '\u{201C}' || c == '\u{201D}' || c == '\u{201E}' || c == '\u{201F}' {
        '"'
    } else {
        c
    }
}

pub open spec fn with_plain_quotes(content: Seq<char>) -> Seq<char> {
    content.map_values(|c: char| plain_quote(c))
}

fn convert_quotes(content: &str) -> (r: String)
    ensures
        r@ == with_plain_quotes(content@),
{
    let cs = chars_of(content);
    let mut out: Vec<char> = Vec::new();
    let mut i: usize = 0;
    while i < cs.len()
        invariant
            i <= cs@.len(),
            cs@ == content@,
            out@ =~= with_plain_quotes(cs@.take(i as int)),
        decreases cs@.len() - i,
    {
        let c = cs[i];
        let q = if c == '\u{2018}' || c == '\u{2019}' || c == '\u{201A}' || c == '\u{201B}' {
            '\''
        } else if c == '\u{201C}' || c == '\u{201D}' || c == '\u{201E}' || c == '\u{201F}' {
            '"'
        } else {
            c
        };
        out.push(q);
        i = i + 1;
        assert(with_plain_quotes(cs@.take(i as int)) =~= with_plain_quotes(cs@.take(i - 1)).push(
            plain_quote(c),
        ));
    }
    assert(cs@.take(cs@.len() as int) =~= cs@);
    string_from_chars(out.as_slice())
}


/// Whether `url::Url::parse` accepts `token`.
pub uninterp spec fn url_parses(token: Seq<char>) -> bool;

/// The decoded query pairs (`Url::query_pairs`) of the URL that `token` parses to.
pub uninterp spec fn url_query_pairs(token: Seq<char>) -> Seq<(Seq<char>, Seq<char>)>;

/// The serialization of the URL that `token` parses to, after
/// `Url::set_query(None)`.
pub uninterp spec fn url_without_query(token: Seq<char>) -> Seq<char>;

/// The serialization of the URL that `token` parses to, after
/// `Url::set_query(None)` and then appending `pairs` in order with
/// `Url::query_pairs_mut().extend_pairs`.
pub uninterp spec fn url_with_query_pairs(token: Seq<char>, pairs: Seq<(Seq<char>, Seq<char>)>) -> Seq<char>;

/// The pairs as plain text.
pub open spec fn pairs_view(pairs: Seq<(String, String)>) -> Seq<(Seq<char>, Seq<char>)> {
    pairs.map_values(|p: (String, String)| (p.0@, p.1@))
}

/// Parses `token` with `url::Url::parse` and collects its `query_pairs`
/// as owned strings; `None` where the token does not parse.
#[verifier::external_body]
fn parse_query_pairs(token: &str) -> (r: Option<Vec<(String, String)>>)
    ensures
        r is Some <==> url_parses(token@),
        r matches Some(v) ==> pairs_view(v@) == url_query_pairs(token@),
{
    match url::Url::parse(token) {
        Ok(u) => Some(u.query_pairs().map(|(k, v)| (k.into_owned(), v.into_owned())).collect()),
        Err(_) => None,
    }
}

/// Parses `token` with `url::Url::parse`, removes its query with
/// `set_query(None)` and serializes it; `None` where the token does not parse.
#[verifier::external_body]
fn serialize_without_query(token: &str) -> (r: Option<String>)
    ensures
        r is Some <==> url_parses(token@),
        r matches Some(s) ==> s@ == url_without_query(token@),
{
    match url::Url::parse(token) {
        Ok(mut u) => {
            u.set_query(None);
            Some(u.to_string())
        },
        Err(_) => None,
    }
}

/// Parses `token` with `url::Url::parse`, removes its query with
/// `set_query(None)`, appends `pairs` with `query_pairs_mut().extend_pairs`
/// and serializes it; `None` where the token does not parse.
#[verifier::external_body]
fn serialize_with_query_pairs(token: &str, pairs: &[(String, String)]) -> (r: Option<String>)
    ensures
        r is Some <==> url_parses(token@),
        r matches Some(s) ==> s@ == url_with_query_pairs(token@, pairs_view(pairs@)),
{
    match url::Url::parse(token) {
        Ok(mut u) => {
            u.set_query(None);
            u.query_pairs_mut().extend_pairs(pairs.iter().map(|(k, v)| (k.as_str(), v.as_str())));
            Some(u.to_string())
        },
        Err(_) => None,
    }
}

/// The query keys that mark tracking, compared in ASCII lowercase:
/// any `utm_` key, and the click and campaign identifiers of the common
/// ad and mail platforms.
pub open spec fn tracking_keys() -> Seq<Seq<char>> {
    seq![
        "fbclid"@, "gclid"@, "dclid"@, "msclkid"@, "mc_cid"@, "mc_eid"@, "igshid"@, "ref"@,
        "ref_src"@,
    ]
}

pub open spec fn is_tracking_key(key: Seq<char>) -> bool {
    let k = ascii_lowercase(key);
    starts_with_seq(k, "utm_"@) || tracking_keys().contains(k)
}

/// The pairs whose key does not mark tracking, in order.
pub open spec fn kept_pairs(pairs: Seq<(Seq<char>, Seq<char>)>) -> Seq<(Seq<char>, Seq<char>)>
    decreases pairs.len(),
{
    if pairs.len() == 0 {
        Seq::empty()
    } else {
        let rest = kept_pairs(pairs.drop_last());
        if is_tracking_key(pairs.last().0) {
            rest
        } else {
            rest.push(pairs.last())
        }
    }
}

/// Whether the query key `key` marks tracking, written out: once in ASCII
/// lowercase, it begins with `utm_` or is one of `fbclid`, `gclid`,
/// `dclid`, `msclkid`, `mc_cid`, `mc_eid`, `igshid`, `ref` and `ref_src`.
pub open spec fn marks_tracking(key: Seq<char>) -> bool {
    let k = ascii_lowercase(key);
    ||| starts_with_seq(k, "utm_"@)
    ||| k == "fbclid"@
    ||| k == "gclid"@
    ||| k == "dclid"@
    ||| k == "msclkid"@
    ||| k == "mc_cid"@
    ||| k == "mc_eid"@
    ||| k == "igshid"@
    ||| k == "ref"@
    ||| k == "ref_src"@
}

/// The keys stripped from links are exactly the `utm_` keys and the listed
/// click and campaign identifiers, in any ASCII case; a link keeps every
/// other pair, in order, and loses every tracking pair.
pub proof fn law_tracking_keys(key: Seq<char>, pairs: Seq<(Seq<char>, Seq<char>)>)
    ensures
        is_tracking_key(key) <==> marks_tracking(key),
        forall|i: int| 0 <= i < kept_pairs(pairs).len() ==> !marks_tracking(#[trigger] kept_pairs(pairs)[i].0),
        kept_pairs(pairs).len() == pairs.len() ==> forall|i: int|
            0 <= i < pairs.len() ==> !marks_tracking(#[trigger] pairs[i].0),
    decreases pairs.len(),
{
    assert(tracking_keys()[0] == "fbclid"@);
    assert(tracking_keys()[1] == "gclid"@);
    assert(tracking_keys()[2] == "dclid"@);
    assert(tracking_keys()[3] == "msclkid"@);
    assert(tracking_keys()[4] == "mc_cid"@);
    assert(tracking_keys()[5] == "mc_eid"@);
    assert(tracking_keys()[6] == "igshid"@);
    assert(tracking_keys()[7] == "ref"@);
    assert(tracking_keys()[8] == "ref_src"@);
    assert(tracking_keys().len() == 9);
    let k = ascii_lowercase(key);
    if marks_tracking(key) && !starts_with_seq(k, "utm_"@) {
        assert(exists|i: int| 0 <= i < tracking_keys().len() && tracking_keys()[i] == k);
    }
    if pairs.len() > 0 {
        let pre = pairs.drop_last();
        law_tracking_keys(pairs.last().0, pre);
        law_tracking_keys(key, pre);
        assert forall|i: int| 0 <= i < kept_pairs(pairs).len() implies !marks_tracking(
            #[trigger] kept_pairs(pairs)[i].0,
        ) by {
            law_tracking_keys(kept_pairs(pairs)[i].0, Seq::empty());
            if i < kept_pairs(pre).len() {
                assert(kept_pairs(pairs)[i] == kept_pairs(pre)[i]);
            }
        }
        lemma_kept_pairs_len(pre);
        if kept_pairs(pairs).len() == pairs.len() {
            assert forall|i: int| 0 <= i < pairs.len() implies !marks_tracking(#[trigger] pairs[i].0) by {
                law_tracking_keys(pairs[i].0, Seq::empty());
                if i < pre.len() {
                    assert(pairs[i] == pre[i]);
                }
            }
        }
    }
}

proof fn lemma_kept_pairs_len(pairs: Seq<(Seq<char>, Seq<char>)>)
    ensures
        kept_pairs(pairs).len() <= pairs.len(),
    decreases pairs.len(),
{
    if pairs.len() > 0 {
        lemma_kept_pairs_len(pairs.drop_last());
    }
}

/// A token without its tracking query parameters: a URL is rebuilt with
/// only the pairs that do not mark tracking (and without a query where
/// none is left); anything that is not a URL stays as it is.
pub open spec fn token_without_tracking(token: Seq<char>) -> Seq<char> {
    if !url_parses(token) {
        token
    } else {
        let kept = kept_pairs(url_query_pairs(token));
        if kept.len() == 0 {
            url_without_query(token)
        } else {
            url_with_query_pairs(token, kept)
        }
    }
}

fn is_tracking_key_exec(key: &str) -> (r: bool)
    ensures
        r == is_tracking_key(key@),
{
    let kc = chars_of(key);
    let k = ascii_lowercase_chars(kc.as_slice());
    let utm = chars_of("utm_");
    if starts_with_chars(k.as_slice(), utm.as_slice()) {
        return true;
    }
    let keys = vec![
        "fbclid", "gclid", "dclid", "msclkid", "mc_cid", "mc_eid", "igshid", "ref", "ref_src",
    ];
    let ks = string_from_chars(k.as_slice());
    let mut i: usize = 0;
    while i < keys.len()
        invariant
            i <= keys@.len(),
            keys@.len() == tracking_keys().len(),
            ks@ == ascii_lowercase(key@),
            forall|m: int| 0 <= m < tracking_keys().len() ==> #[trigger] keys@[m]@ == tracking_keys()[m],
            forall|m: int| 0 <= m < i ==> #[trigger] tracking_keys()[m] != ks@,
        decreases keys@.len() - i,
    {
        if same_text(ks.as_str(), keys[i]) {
            assert(tracking_keys()[i as int] == ks@);
            return true;
        }
        i = i + 1;
    }
    false
}

/// The query pairs without those whose key marks tracking, in order.
pub fn strip_tracking_pairs(pairs: &[(String, String)]) -> (r: Vec<(String, String)>)
    ensures
        pairs_view(r@) == kept_pairs(pairs_view(pairs@)),
{
    let ghost pv = pairs_view(pairs@);
    let mut kept: Vec<(String, String)> = Vec::new();
    let mut i: usize = 0;
    while i < pairs.len()
        invariant
            i <= pairs@.len(),
            pv == pairs_view(pairs@),
            pairs_view(kept@) == kept_pairs(pv.take(i as int)),
        decreases pairs@.len() - i,
    {
        let ghost before = kept@;
        let ghost t = pv.take(i + 1);
        assert(t.drop_last() =~= pv.take(i as int));
        assert(t.last() == (pairs@[i as int].0@, pairs@[i as int].1@));
        if !is_tracking_key_exec(pairs[i].0.as_str()) {
            let k = pairs[i].0.clone();
            let v = pairs[i].1.clone();
            kept.push((k, v));
            assert(pairs_view(kept@) =~= pairs_view(before).push(t.last()));
        }
        i = i + 1;
    }
    assert(pv.take(pairs@.len() as int) =~= pv);
    kept
}

fn strip_tracking_from_token(token: &str) -> (r: String)
    ensures
        r@ == token_without_tracking(token@),
{
    let pairs = match parse_query_pairs(token) {
        Some(p) => p,
        None => return String::from_str(token),
    };
    let kept = strip_tracking_pairs(pairs.as_slice());
    let rebuilt = if kept.len() == 0 {
        serialize_without_query(token)
    } else {
        serialize_with_query_pairs(token, kept.as_slice())
    };
    match rebuilt {
        Some(s) => s,
        None => String::from_str(token),
    }
}

/// `content` with the tracking parameters removed from every
/// whitespace-separated word, the words joined by single spaces.
pub open spec fn without_tracking(content: Seq<char>) -> Seq<char> {
    join_with(words(content).map_values(|w: Seq<char>| token_without_tracking(w)), " "@)
}

fn strip_tracking_params(content: &str) -> (r: String)
    ensures
        r@ == without_tracking(content@),
{
    let cs = chars_of(content);
    let ws = split_words(cs.as_slice());
    let ghost wv = words(content@);
    let mut out: Vec<Vec<char>> = Vec::new();
    let mut i: usize = 0;
    while i < ws.len()
        invariant
            i <= ws@.len(),
            ws@.len() == wv.len(),
            wv == words(content@),
            forall|k: int| 0 <= k < ws@.len() ==> #[trigger] ws@[k]@ == wv[k],
            out@.len() == i,
            forall|k: int| 0 <= k < i ==> #[trigger] out@[k]@ == token_without_tracking(wv[k]),
        decreases ws@.len() - i,
    {
        let w = string_from_chars(ws[i].as_slice());
        let stripped = strip_tracking_from_token(w.as_str());
        out.push(chars_of(stripped.as_str()));
        i = i + 1;
    }
    let sp = chars_of(" ");
    let joined = join_chars(&out, sp.as_slice());
    assert(out@.map_values(|p: Vec<char>| p@) =~= wv.map_values(|w: Seq<char>| token_without_tracking(w)));
    string_from_chars(joined.as_slice())
}

/// The text that copying `content` in `format` gives.
pub open spec fn formatted_text(content: Seq<char>, format: ClipboardFormat) -> Seq<char> {
    match format {
        ClipboardFormat::Original | ClipboardFormat::PlainText => content,
        ClipboardFormat::Uppercase => unicode_uppercase(content),
        ClipboardFormat::Lowercase => unicode_lowercase(content),
        ClipboardFormat::RemoveFormatting => without_formatting(content),
        ClipboardFormat::ConvertQuotes => with_plain_quotes(content),
        ClipboardFormat::StripTrackingParams => without_tracking(content),
    }
}

/// The text to copy for `content` in `format`.
pub fn apply_text_format(content: &str, format: ClipboardFormat) -> (r: String)
    ensures
        r@ == formatted_text(content@, format),
{
    match format {
        ClipboardFormat::Original | ClipboardFormat::PlainText => String::from_str(content),
        ClipboardFormat::Uppercase => to_uppercase_string(content),
        ClipboardFormat::Lowercase => to_lowercase_string(content),
        ClipboardFormat::RemoveFormatting => remove_formatting(content),
        ClipboardFormat::ConvertQuotes => convert_quotes(content),
        ClipboardFormat::StripTrackingParams => strip_tracking_params(content),
    }
}

/// Converting quotes twice gives what converting once gives.
pub proof fn law_convert_quotes_idempotent(content: Seq<char>)
    ensures
        with_plain_quotes(with_plain_quotes(content)) == with_plain_quotes(content),
{
    assert(with_plain_quotes(with_plain_quotes(content)) =~= with_plain_quotes(content));
}

/// Converting quotes turns each typographic single quote (U+2018 to
/// U+201B) into `'`, each typographic double quote (U+201C to U+201F) into
/// `"`, and leaves every other character where it is.
pub proof fn law_quotes_become_plain_quotes(content: Seq<char>)
    ensures
        with_plain_quotes(content).len() == content.len(),
        forall|i: int|
            0 <= i < content.len() ==> {
                let c = content[i];
                let r = #[trigger] with_plain_quotes(content)[i];
                &&& ('\u{2018}' <= c && c <= '\u{201B}') ==> r == '\''
                &&& ('\u{201C}' <= c && c <= '\u{201F}') ==> r == '"'
                &&& !('\u{2018}' <= c && c <= '\u{201F}') ==> r == c
            },
{
}

/// After converting quotes no typographic quote is left, and nothing else
/// changes: the text keeps its length and every other character.
pub proof fn law_convert_quotes_only_quotes(content: Seq<char>)
    ensures
        with_plain_quotes(content).len() == content.len(),
        forall|i: int|
            0 <= i < content.len() ==> {
                let c = #[trigger] with_plain_quotes(content)[i];
                &&& c != '\u{2018}' && c != '\u{2019}' && c != '\u{201A}' && c != '\u{201B}'
                &&& c != '\u{201C}' && c != '\u{201D}' && c != '\u{201E}' && c != '\u{201F}'
                &&& plain_quote(content[i]) == content[i] ==> c == content[i]
            },
{
}

/// A word that is not a URL is kept as it is.
pub proof fn law_non_url_tokens_kept(token: Seq<char>)
    requires
        !url_parses(token),
    ensures
        token_without_tracking(token) == token,
{
}

/// No pair kept when stripping tracking parameters has a tracking key, and
/// every pair without one is kept.
pub proof fn law_kept_pairs_exact(pairs: Seq<(Seq<char>, Seq<char>)>)
    ensures
        forall|i: int| 0 <= i < kept_pairs(pairs).len() ==> !is_tracking_key(#[trigger] kept_pairs(pairs)[i].0),
        forall|i: int| 0 <= i < pairs.len() && !is_tracking_key(#[trigger] pairs[i].0) ==> kept_pairs(pairs).contains(pairs[i]),
    decreases pairs.len(),
{
    if pairs.len() > 0 {
        law_kept_pairs_exact(pairs.drop_last());
        let rest = kept_pairs(pairs.drop_last());
        assert forall|i: int| 0 <= i < pairs.len() && !is_tracking_key(#[trigger] pairs[i].0) implies kept_pairs(pairs).contains(pairs[i]) by {
            if i < pairs.len() - 1 {
                assert(pairs.drop_last()[i] == pairs[i]);
                let j = choose|j: int| 0 <= j < rest.len() && rest[j] == pairs[i];
                assert(kept_pairs(pairs)[j] == pairs[i]);
            } else {
                assert(kept_pairs(pairs)[kept_pairs(pairs).len() - 1] == pairs[i]);
            }
        }
    }
}

} // verus!
