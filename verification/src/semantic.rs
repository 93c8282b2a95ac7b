//! What is known of a file without asking a model: a year in its name, tags
//! from its name and extension; and cutting the JSON object out of a
//! model's answer.

use vstd::prelude::*;
use crate::text::{views, contains, digit_value, is_digit, lowercase, has_member, to_lowercase, contains_text, same_text, chars_of, text_of_range, list_has};
use crate::models::{Confidence, EntryView, FileDescriptor, SemanticResult};

verus! {

/// The number that four digits at position `i` spell.
pub open spec fn number_at(s: Seq<char>, i: int) -> int {
    (digit_value(s[i]) * 1000 + digit_value(s[i + 1]) * 100 + digit_value(s[i + 2]) * 10
        + digit_value(s[i + 3])) as int
}

/// At position `i` stands a year of this century by itself: exactly four
/// digits with no digit before or after them, spelling a number from 2000
/// to 2099.
pub open spec fn year_at(s: Seq<char>, i: int) -> bool {
    &&& 0 <= i && i + 4 <= s.len()
    &&& is_digit(s[i]) && is_digit(s[i + 1]) && is_digit(s[i + 2]) && is_digit(s[i + 3])
    &&& (i == 0 || !is_digit(s[i - 1]))
    &&& (i + 4 == s.len() || !is_digit(s[i + 4]))
    &&& 2000 <= number_at(s, i) <= 2099
}

/// A year stands at some position below `limit`.
pub open spec fn year_before(s: Seq<char>, limit: int) -> bool {
    exists|i: int| i < limit && year_at(s, i)
}

/// The value of a digit.
pub fn digit_value_of(c: char) -> (r: u8)
    ensures
        r == digit_value(c),
{
    if c == '0' {
        0
    } else if c == '1' {
        1
    } else if c == '2' {
        2
    } else if c == '3' {
        3
    } else if c == '4' {
        4
    } else if c == '5' {
        5
    } else if c == '6' {
        6
    } else if c == '7' {
        7
    } else if c == '8' {
        8
    } else if c == '9' {
        9
    } else {
        10
    }
}

/// The first year of this century that stands by itself in a file name.
pub fn extract_year_from_filename(filename: &str) -> (r: Option<i32>)
    ensures
        match r {
            Some(y) => exists|i: int|
                year_at(filename@, i) && !year_before(filename@, i) && y == number_at(
                    filename@,
                    i,
                ),
            None => forall|i: int| !year_at(filename@, i),
        },
{
    let v = chars_of(filename);
    let n = v.len();
    if n < 4 {
        return None;
    }
    let mut i: usize = 0;
    while i <= n - 4
        invariant
            i <= n,
            n >= 4,
            n == v@.len(),
            v@ == filename@,
            !year_before(v@, i as int),
        decreases n - i,
    {
        let a = digit_value_of(v[i]);
        let b = digit_value_of(v[i + 1]);
        let c = digit_value_of(v[i + 2]);
        let d = digit_value_of(v[i + 3]);
        if a < 10 && b < 10 && c < 10 && d < 10 {
            let free_before = i == 0 || digit_value_of(v[i - 1]) >= 10;
            let free_after = i + 4 == n || digit_value_of(v[i + 4]) >= 10;
            let number: i32 = (a as i32) * 1000 + (b as i32) * 100 + (c as i32) * 10 + (d as i32);
            if free_before && free_after && 2000 <= number && number <= 2099 {
                assert(year_at(v@, i as int));
                return Some(number);
            }
        }
        i += 1;
    }
    None
}

/// The tag that an extension, in lower case, stands for.
pub open spec fn extension_tag(extension: Seq<char>) -> Option<Seq<char>> {
    if extension == ".jpg"@ || extension == ".jpeg"@ || extension == ".png"@ || extension
        == ".gif"@ {
        Some("image"@)
    } else if extension == ".mp4"@ || extension == ".avi"@ || extension == ".mkv"@ {
        Some("video"@)
    } else if extension == ".mp3"@ || extension == ".wav"@ || extension == ".flac"@ {
        Some("audio"@)
    } else if extension == ".pdf"@ {
        Some("document"@)
    } else if extension == ".doc"@ || extension == ".docx"@ {
        Some("word"@)
    } else if extension == ".xls"@ || extension == ".xlsx"@ {
        Some("excel"@)
    } else {
        None
    }
}

/// `tags` with `tag` added where `wanted` holds.
pub open spec fn tagged_if(tags: Seq<Seq<char>>, wanted: bool, tag: Seq<char>) -> Seq<Seq<char>> {
    if wanted {
        tags.push(tag)
    } else {
        tags
    }
}

/// The tags that a name and an extension, both in lower case, stand for:
/// one for the kind of file, then one each for an invoice, a contract and a
/// report where the name says so.
pub open spec fn tags_from(name: Seq<char>, extension: Seq<char>) -> Seq<Seq<char>> {
    let kind = match extension_tag(extension) {
        Some(t) => seq![t],
        None => Seq::empty(),
    };
    let with_invoice = tagged_if(
        kind,
        contains(name, "发票"@) || contains(name, "invoice"@),
        "invoice"@,
    );
    let with_contract = tagged_if(
        with_invoice,
        contains(name, "合同"@) || contains(name, "contract"@),
        "contract"@,
    );
    tagged_if(with_contract, contains(name, "报告"@) || contains(name, "report"@), "report"@)
}

/// The tags of a file by its name and extension, case ignored.
pub open spec fn local_tags(e: EntryView) -> Seq<Seq<char>> {
    tags_from(lowercase(e.name), lowercase(e.extension))
}

/// The confidence of an analysis that asked no model, in millionths.
pub const LOCAL_CONFIDENCE: u32 = 600_000;

fn push_tag(tags: &mut Vec<String>, tag: &str)
    ensures
        views(final(tags)@) == views(old(tags)@).push(tag@),
{
    tags.push(String::from_str(tag));
    assert(views(tags@) =~= views(old(tags)@).push(tag@));
}

fn extension_tag_of(extension: &str) -> (r: Option<String>)
    ensures
        match r {
            Some(t) => extension_tag(extension@) == Some(t@),
            None => extension_tag(extension@) is None,
        },
{
    if same_text(extension, ".jpg") || same_text(extension, ".jpeg") || same_text(
        extension,
        ".png",
    ) || same_text(extension, ".gif") {
        Some(String::from_str("image"))
    } else if same_text(extension, ".mp4") || same_text(extension, ".avi") || same_text(
        extension,
        ".mkv",
    ) {
        Some(String::from_str("video"))
    } else if same_text(extension, ".mp3") || same_text(extension, ".wav") || same_text(
        extension,
        ".flac",
    ) {
        Some(String::from_str("audio"))
    } else if same_text(extension, ".pdf") {
        Some(String::from_str("document"))
    } else if same_text(extension, ".doc") || same_text(extension, ".docx") {
        Some(String::from_str("word"))
    } else if same_text(extension, ".xls") || same_text(extension, ".xlsx") {
        Some(String::from_str("excel"))
    } else {
        None
    }
}

/// The tags that a name and an extension, both in lower case, stand for.
pub fn tags_of(lower_name: &str, lower_extension: &str) -> (r: Vec<String>)
    ensures
        views(r@) == tags_from(lower_name@, lower_extension@),
{
    let mut tags: Vec<String> = Vec::new();
    assert(views(tags@) =~= Seq::empty());
    if let Some(tag) = extension_tag_of(lower_extension) {
        let ghost before = views(tags@);
        tags.push(tag);
        assert(views(tags@) =~= before.push(tag@));
    }
    if contains_text(lower_name, "发票") || contains_text(lower_name, "invoice") {
        push_tag(&mut tags, "invoice");
    }
    if contains_text(lower_name, "合同") || contains_text(lower_name, "contract") {
        push_tag(&mut tags, "contract");
    }
    if contains_text(lower_name, "报告") || contains_text(lower_name, "report") {
        push_tag(&mut tags, "report");
    }
    tags
}

/// An analysis of a file by its name and extension alone, for use without
/// a model: the local tags, no entities, the year that stands in the name,
/// and a fixed confidence.
pub fn mock_semantic_analysis(file: &FileDescriptor) -> (r: SemanticResult)
    ensures
        r@.tags == local_tags(file@),
        r@.entities == Seq::<Seq<char>>::empty(),
        r@.confidence == LOCAL_CONFIDENCE,
        r@.explanation == "基于文件名和扩展名的本地分析"@,
        match r@.year {
            Some(y) => exists|i: int|
                year_at(file@.name, i) && !year_before(file@.name, i) && y == number_at(
                    file@.name,
                    i,
                ),
            None => forall|i: int| !year_at(file@.name, i),
        },
{
    let extension = to_lowercase(file.extension.as_str());
    let name = to_lowercase(file.name.as_str());
    let tags = tags_of(name.as_str(), extension.as_str());
    let year = extract_year_from_filename(file.name.as_str());
    let entities: Vec<String> = Vec::new();
    assert(views(entities@) =~= Seq::empty());
    SemanticResult {
        tags,
        entities,
        year,
        confidence: Confidence::from_millionths(LOCAL_CONFIDENCE),
        explanation: String::from_str("基于文件名和扩展名的本地分析"),
    }
}

/// Whether a file is one that a model is asked about: atomic entries and
/// directories are not.
pub fn is_analyzable(file: &FileDescriptor) -> (r: bool)
    ensures
        r == (!file@.atomic && !file@.is_directory),
{
    !file.atomic && !file.is_directory
}

/// The extensions of files that are read as text.
pub open spec fn text_extensions() -> Seq<Seq<char>> {
    seq![
        ".txt"@,
        ".md"@,
        ".json"@,
        ".xml"@,
        ".html"@,
        ".css"@,
        ".js"@,
        ".ts"@,
        ".py"@,
        ".rs"@,
        ".go"@,
        ".java"@,
        ".c"@,
        ".cpp"@,
        ".h"@,
        ".hpp"@,
        ".yaml"@,
        ".yml"@,
        ".toml"@,
        ".ini"@,
        ".cfg"@,
        ".log"@,
        ".csv"@,
    ]
}

/// Whether files of this extension, given in lower case, are read as
/// text.
pub fn is_text_extension(lower_extension: &str) -> (r: bool)
    ensures
        r == has_member(text_extensions(), lower_extension@),
{
    let mut t: Vec<String> = Vec::new();
    assert(views(t@) =~= Seq::empty());
    push_tag(&mut t, ".txt");
    push_tag(&mut t, ".md");
    push_tag(&mut t, ".json");
    push_tag(&mut t, ".xml");
    push_tag(&mut t, ".html");
    push_tag(&mut t, ".css");
    push_tag(&mut t, ".js");
    push_tag(&mut t, ".ts");
    push_tag(&mut t, ".py");
    push_tag(&mut t, ".rs");
    push_tag(&mut t, ".go");
    push_tag(&mut t, ".java");
    push_tag(&mut t, ".c");
    push_tag(&mut t, ".cpp");
    push_tag(&mut t, ".h");
    push_tag(&mut t, ".hpp");
    push_tag(&mut t, ".yaml");
    push_tag(&mut t, ".yml");
    push_tag(&mut t, ".toml");
    push_tag(&mut t, ".ini");
    push_tag(&mut t, ".cfg");
    push_tag(&mut t, ".log");
    push_tag(&mut t, ".csv");
    assert(views(t@) =~= text_extensions());
    list_has(t.as_slice(), lower_extension)
}

/// Whether files of this extension are read as text, case ignored.
pub fn is_text_file(extension: &str) -> (r: bool)
    ensures
        r == has_member(text_extensions(), lowercase(extension@)),
{
    let lower = to_lowercase(extension);
    is_text_extension(lower.as_str())
}

/// The index of the first `{` at or after `start`.
pub open spec fn first_open(s: Seq<char>, start: int) -> Option<int>
    decreases s.len() - start,
{
    if start < 0 || start >= s.len() {
        None
    } else if s[start] == '{' {
        Some(start)
    } else {
        first_open(s, start + 1)
    }
}

/// The index of the `}` that brings the nesting back to zero, reading on
/// from `i` at the nesting `depth`. Braces are counted wherever they
/// stand, also inside quoted text.
pub open spec fn closing(s: Seq<char>, i: int, depth: nat) -> Option<int>
    decreases s.len() - i,
{
    if i < 0 || i >= s.len() {
        None
    } else if s[i] == '{' {
        closing(s, i + 1, depth + 1)
    } else if s[i] == '}' {
        if depth <= 1 {
            Some(i)
        } else {
            closing(s, i + 1, (depth - 1) as nat)
        }
    } else {
        closing(s, i + 1, depth)
    }
}

/// The first balanced `{...}` span of a text: from its first `{` to the `}`
/// that closes it. A text without such a span is given back whole.
pub open spec fn json_span(s: Seq<char>) -> Seq<char> {
    match first_open(s, 0) {
        Some(a) => match closing(s, a, 0) {
            Some(b) => s.subrange(a, b + 1),
            None => s,
        },
        None => s,
    }
}

/// Cuts the first balanced `{...}` span out of a model's answer.
pub fn extract_json(response: &str) -> (r: String)
    ensures
        r@ == json_span(response@),
{
    let v = chars_of(response);
    let n = v.len();
    let mut a: usize = 0;
    while a < n && v[a] != '{'
        invariant
            a <= n,
            n == v@.len(),
            first_open(v@, a as int) == first_open(v@, 0),
        decreases n - a,
    {
        a += 1;
    }
    if a == n {
        return String::from_str(response);
    }
    let mut depth: usize = 0;
    let mut i: usize = a;
    while i < n
        invariant
            a <= i <= n,
            n == v@.len(),
            v@ == response@,
            first_open(v@, 0) == Some(a as int),
            depth <= i - a,
            closing(v@, i as int, depth as nat) == closing(v@, a as int, 0),
        decreases n - i,
    {
        if v[i] == '{' {
            depth += 1;
        } else if v[i] == '}' {
            if depth <= 1 {
                return text_of_range(&v, a, i + 1);
            }
            depth -= 1;
        }
        i += 1;
    }
    String::from_str(response)
}

} // verus!
