//! Regular expressions over titles, and what the `regex` crate answers.

use vstd::prelude::*;

verus! {

/// What the `regex` crate's leftmost match of `pattern` in `text` captures: group by
/// group, the whole match first. `None` where nothing matches or the pattern does not
/// compile.
pub uninterp spec fn regex_captures(pattern: Seq<char>, text: Seq<char>) -> Option<
    Seq<Option<Seq<char>>>,
>;

/// Whether the `regex` crate finds a match of `pattern` in `text`; never where the
/// pattern does not compile.
pub uninterp spec fn regex_matches(pattern: Seq<char>, text: Seq<char>) -> bool;

/// `regex::Regex::captures` with a freshly compiled `pattern`: the text of each group
/// depends on the pattern and the text alone.
#[verifier::external_body]
pub(crate) fn captures(pattern: &str, text: &str) -> (r: Option<Vec<Option<String>>>)
    ensures
        r.deep_view() == regex_captures(pattern@, text@),
{
    let re = regex::Regex::new(pattern).ok()?;
    let caps = re.captures(text)?;
    Some(caps.iter().map(|g| g.map(|m| m.as_str().to_string())).collect())
}

/// `regex::Regex::is_match` with a freshly compiled `pattern`: the answer depends on
/// the pattern and the text alone.
#[verifier::external_body]
pub(crate) fn is_match(pattern: &str, text: &str) -> (r: bool)
    ensures
        r == regex_matches(pattern@, text@),
{
    match regex::Regex::new(pattern) {
        Ok(re) => re.is_match(text),
        Err(_) => false,
    }
}

/// The characters that mean something in a regular expression.
pub open spec fn is_meta(c: char) -> bool {
    ||| c == '\\' || c == '.' || c == '+' || c == '*' || c == '?' || c == '('
    ||| c == ')' || c == '|' || c == '[' || c == ']' || c == '{' || c == '}'
    ||| c == '^' || c == '$' || c == '#' || c == '&' || c == '-' || c == '~'
}

/// `s` with a backslash before each meta character.
pub open spec fn escaped(s: Seq<char>) -> Seq<char>
    decreases s.len(),
{
    if s.len() == 0 {
        Seq::empty()
    } else {
        escaped(s.drop_last()) + if is_meta(s.last()) {
            seq!['\\', s.last()]
        } else {
            seq![s.last()]
        }
    }
}

/// `regex::escape` puts a backslash before each meta character and keeps the rest.
#[verifier::external_body]
pub(crate) fn escape(text: &str) -> (r: String)
    ensures
        r@ == escaped(text@),
{
    regex::escape(text)
}

/// The pattern that matches `needle` as a whole word, in any case.
pub open spec fn word_pattern(needle: Seq<char>) -> Seq<char> {
    "(?i)\\b"@ + escaped(needle) + "\\b"@
}

/// Whether `needle` stands in `title` as a whole word, in any case.
pub open spec fn bounded_in(title: Seq<char>, needle: Seq<char>) -> bool {
    regex_matches(word_pattern(needle), title)
}

/// Whether `needle` stands in `title` as a whole word, in any case.
pub fn word_bounded(title: &str, needle: &str) -> (r: bool)
    ensures
        r == bounded_in(title@, needle@),
{
    let mut pattern = "(?i)\\b".to_owned();
    pattern.append(escape(needle).as_str());
    pattern.append("\\b");
    is_match(pattern.as_str(), title)
}

/// Whether each of `needles` stands in `title` as a whole word.
pub open spec fn hits_of(title: Seq<char>, needles: Seq<Seq<char>>) -> Seq<bool> {
    Seq::new(needles.len(), |i: int| bounded_in(title, needles[i]))
}

/// Whether each of `needles` stands in `title` as a whole word.
pub fn word_hits(title: &str, needles: &Vec<String>) -> (r: Vec<bool>)
    ensures
        r@ == hits_of(title@, needles.deep_view()),
{
    let mut out: Vec<bool> = Vec::new();
    let mut i: usize = 0;
    while i < needles.len()
        invariant
            i <= needles@.len(),
            out@ == hits_of(title@, needles.deep_view()).take(i as int),
        decreases needles@.len() - i,
    {
        out.push(word_bounded(title, needles[i].as_str()));
        assert(needles.deep_view()[i as int] == needles@[i as int]@);
        i = i + 1;
        assert(out@ =~= hits_of(title@, needles.deep_view()).take(i as int));
    }
    assert(out@ =~= hits_of(title@, needles.deep_view()));
    out
}

/// The text of group `i`, where the match has one.
pub open spec fn group_of(caps: Option<Seq<Option<Seq<char>>>>, i: int) -> Option<Seq<char>> {
    match caps {
        Some(groups) => if 0 <= i < groups.len() {
            groups[i]
        } else {
            None
        },
        None => None,
    }
}

/// The text of group `i`, where the match has one.
pub fn group(caps: &Option<Vec<Option<String>>>, i: usize) -> (r: Option<String>)
    ensures
        r.deep_view() == group_of(caps.deep_view(), i as int),
{
    match caps {
        Some(groups) => {
            if i < groups.len() {
                assert(groups.deep_view()[i as int] == groups@[i as int].deep_view());
                match &groups[i] {
                    Some(s) => Some(s.clone()),
                    None => None,
                }
            } else {
                None
            }
        },
        None => None,
    }
}

/// Escaping works on each character for itself: one that means something in a pattern
/// gets a backslash in front, any other stays.
pub proof fn escapes_are_local(s: Seq<char>, c: char)
    ensures
        escaped(s.push(c)) == escaped(s) + if "\\.+*?()|[]{}^$#&-~"@.contains(c) {
            seq!['\\', c]
        } else {
            seq![c]
        },
        escaped(Seq::empty()).len() == 0,
{
    reveal_strlit("\\.+*?()|[]{}^$#&-~");
    let all = "\\.+*?()|[]{}^$#&-~"@;
    assert(s.push(c).drop_last() =~= s);
    if is_meta(c) {
        assert(all[0] == '\\' && all[1] == '.' && all[2] == '+' && all[3] == '*'
            && all[4] == '?' && all[5] == '(' && all[6] == ')' && all[7] == '|' && all[8] == '['
            && all[9] == ']' && all[10] == '{' && all[11] == '}' && all[12] == '^'
            && all[13] == '$' && all[14] == '#' && all[15] == '&' && all[16] == '-'
            && all[17] == '~');
        assert(all.contains(c));
    }
}

/// A word is looked for in any case, with a word boundary on each side, each for itself.
pub proof fn words_are_looked_for_whole(title: Seq<char>, needles: Seq<Seq<char>>)
    ensures
        hits_of(title, needles).len() == needles.len(),
        forall|i: int|
            0 <= i < needles.len() ==> #[trigger] hits_of(title, needles)[i] == regex_matches(
                "(?i)\\b"@ + escaped(needles[i]) + "\\b"@,
                title,
            ),
{
}

/// A group is what the match holds under its number, where there is a match that long.
pub proof fn groups_are_numbered(caps: Seq<Option<Seq<char>>>, i: int)
    ensures
        0 <= i < caps.len() ==> group_of(Some(caps), i) == caps[i],
        i >= caps.len() ==> group_of(Some(caps), i) is None,
        group_of(None, i) is None,
{
}

} // verus!
