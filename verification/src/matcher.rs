//! The event matcher: which log lines announce a lobby, and which player
//! identifiers such a line carries.

use crate::decimal::{
    all_digits, decimal_value, is_digit, lemma_nine_digits_parse, parse_i32, spec_parse_i32,
};
use crate::text::ascii_bytes;
use vstd::pervasive::unreached;
use vstd::prelude::*;
use vstd::slice::slice_subrange;
use vstd::utf8::{encode_utf8, is_ascii_chars, is_ascii_chars_encode_utf8};

verus! {

/// The marker that a line announcing a lobby contains.
pub const TRIGGER_PATTERN: &'static str = "Lobby";

/// The shape of a player tag, such as `[U:1:370898177]`: the bracketed prefix
/// `U:1:` followed by eight or nine ASCII digits.
pub const TAG_PATTERN: &'static str = "\\[U:1:[0-9]{8,9}\\]";

/// Fewest digits of a tag.
pub const TAG_MIN_DIGITS: usize = 8;

/// Most digits of a tag.
pub const TAG_MAX_DIGITS: usize = 9;

/// Longest pattern that is taken for a plain word.
pub const MAX_WORD_LEN: usize = 64;

/// Number of bytes that frame the digits of a tag in front (`[U:1:`).
pub const TAG_PREFIX_LEN: usize = 5;

/// Number of bytes that frame the digits of a tag behind (`]`).
pub const TAG_SUFFIX_LEN: usize = 1;

/// Why identifiers could not be extracted from a line.
#[derive(Clone, Copy, Debug, PartialEq, Eq, Structural)]
pub enum ExtractError {
    /// The regular expression engine did not accept the pattern.
    PatternRejected,
    /// The digits of a matched tag do not write a signed 32-bit integer.
    MalformedIdentifier,
}

/// What the matcher makes of one line.
#[derive(Debug, PartialEq, Eq)]
pub enum MatchResult {
    /// The line does not announce a lobby.
    NoEvent,
    /// The line announces a lobby with these players, each once, in the order
    /// in which their tags first appear.
    Event(Vec<i32>),
}

/// `c` is an ASCII letter or digit.
pub open spec fn is_ascii_alphanumeric(c: char) -> bool {
    ||| 'a' <= c <= 'z'
    ||| 'A' <= c <= 'Z'
    ||| '0' <= c <= '9'
}

/// `pattern` is a plain word: a short, non-empty run of ASCII letters and
/// digits. Such a pattern holds no character that means anything but itself
/// to the regular expression engine.
pub open spec fn is_plain_word(pattern: Seq<char>) -> bool {
    &&& 1 <= pattern.len() <= MAX_WORD_LEN
    &&& forall|i: int| 0 <= i < pattern.len() ==> is_ascii_alphanumeric(#[trigger] pattern[i])
}

/// `needle` stands in `text` at position `i`.
pub open spec fn occurs_at(needle: Seq<char>, text: Seq<char>, i: int) -> bool {
    &&& 0 <= i
    &&& i + needle.len() <= text.len()
    &&& text.subrange(i, i + needle.len()) == needle
}

/// `needle` stands somewhere in `text`.
pub open spec fn occurs_in(needle: Seq<char>, text: Seq<char>) -> bool {
    exists|i: int| occurs_at(needle, text, i)
}

/// The digits of a tag: what stands between its prefix and its closing
/// bracket.
pub open spec fn tag_digits(tag: Seq<char>) -> Seq<char> {
    tag.subrange(TAG_PREFIX_LEN as int, tag.len() - TAG_SUFFIX_LEN)
}

/// `tag` has the shape of a tag: the prefix `[U:1:`, then eight or nine
/// digits, each from `0` to `9`, then `]`.
pub open spec fn is_ascii_tag(tag: Seq<char>) -> bool {
    &&& TAG_PREFIX_LEN + TAG_MIN_DIGITS + TAG_SUFFIX_LEN <= tag.len() <= TAG_PREFIX_LEN
        + TAG_MAX_DIGITS + TAG_SUFFIX_LEN
    &&& tag.subrange(0, TAG_PREFIX_LEN as int) == seq!['[', 'U', ':', '1', ':']
    &&& tag.last() == ']'
    &&& forall|i: int|
        TAG_PREFIX_LEN <= i < tag.len() - TAG_SUFFIX_LEN ==> '0' <= #[trigger] tag[i] <= '9'
}

/// Every text of `tags` has the shape of a tag.
pub open spec fn all_ascii_tags(tags: Seq<Seq<char>>) -> bool {
    forall|i: int| 0 <= i < tags.len() ==> is_ascii_tag(#[trigger] tags[i])
}

/// The successive non-overlapping matches of the regular expression `pattern`
/// in `text`, leftmost first, as the `regex` crate finds them; `None` where
/// the crate rejects the pattern.
pub uninterp spec fn pattern_find_all(pattern: Seq<char>, text: Seq<char>) -> Option<
    Seq<Seq<char>>,
>;

/// Compiles the plain word `pattern` with `regex::Regex::new` and asks
/// `Regex::is_match` whether it matches anywhere in `text`.
///
/// Nothing is proved of the engine. The contract states what its
/// documentation gives for such a pattern: letters and digits are no
/// metacharacters, a run of them is the concatenation of its characters, case
/// counts unless a flag says otherwise, and a search matches anywhere in the
/// text. So the pattern compiles, and it matches exactly where the word
/// stands in the text.
#[verifier::external_body]
fn regex_is_match(pattern: &str, text: &str) -> (found: Option<bool>)
    requires
        is_plain_word(pattern@),
    ensures
        found == Some(occurs_in(pattern@, text@)),
{
    match regex::Regex::new(pattern) {
        Ok(re) => Some(re.is_match(text)),
        Err(_) => None,
    }
}

/// Compiles `pattern` with `regex::Regex::new` and collects the text of each
/// match that `Regex::find_iter` yields on `text`, in the order of the
/// iterator.
///
/// Nothing is proved of the engine. The contract gives the list a name, which
/// depends on the two strings alone. Of the tag pattern it states what the
/// documentation of the syntax gives: `\[` and `\]` are the brackets
/// themselves, `[0-9]` is any ASCII digit, `{8,9}` asks for at least eight
/// and at most nine of them. So that pattern compiles, and whatever it
/// matches has the shape of a tag.
#[verifier::external_body]
fn regex_find_all(pattern: &str, text: &str) -> (found: Option<Vec<String>>)
    ensures
        found.deep_view() == pattern_find_all(pattern@, text@),
        pattern@ == TAG_PATTERN@ ==> found is Some && all_ascii_tags(found.deep_view().unwrap()),
{
    match regex::Regex::new(pattern) {
        Ok(re) => Some(re.find_iter(text).map(|m| m.as_str().to_string()).collect()),
        Err(_) => None,
    }
}

/// The items of `s` without repetitions: of equal items only the first stays,
/// and the items that stay keep their order.
pub open spec fn first_occurrences<T>(s: Seq<T>) -> Seq<T>
    decreases s.len(),
{
    if s.len() == 0 {
        s
    } else {
        let init = first_occurrences(s.drop_last());
        if init.contains(s.last()) {
            init
        } else {
            init.push(s.last())
        }
    }
}

/// `itertools::Itertools::unique` over the strings of `items`: the adaptor
/// yields an item unless an equal one was yielded before, so each distinct
/// string comes out once, at the place of its first occurrence.
#[verifier::external_body]
fn unique_strings(items: &Vec<String>) -> (kept: Vec<String>)
    ensures
        kept.deep_view() == first_occurrences(items.deep_view()),
{
    itertools::Itertools::unique(items.iter()).cloned().collect()
}

/// The identifier that a tag carries: its bytes without the five in front
/// and the one behind, read as a signed 32-bit decimal integer.
pub open spec fn spec_tag_id(tag: Seq<char>) -> Option<i32> {
    let bytes = encode_utf8(tag);
    if bytes.len() >= TAG_PREFIX_LEN + TAG_SUFFIX_LEN {
        spec_parse_i32(bytes.subrange(TAG_PREFIX_LEN as int, bytes.len() - TAG_SUFFIX_LEN))
    } else {
        None
    }
}

/// Every tag of `tags` carries an identifier.
pub open spec fn all_tags_parse(tags: Seq<Seq<char>>) -> bool {
    forall|i: int| 0 <= i < tags.len() ==> spec_tag_id(#[trigger] tags[i]) is Some
}

/// The identifiers of `tags`, one for each tag, in order.
pub open spec fn spec_tag_ids(tags: Seq<Seq<char>>) -> Seq<i32> {
    Seq::new(tags.len(), |i: int| spec_tag_id(tags[i]).unwrap())
}

/// The identifiers that a list of matched tags yields: repeated tags are
/// dropped by their text, and every tag that stays must carry an identifier.
pub open spec fn spec_player_ids(tags: Seq<Seq<char>>) -> Result<Seq<i32>, ExtractError> {
    let distinct = first_occurrences(tags);
    if all_tags_parse(distinct) {
        Ok(spec_tag_ids(distinct))
    } else {
        Err(ExtractError::MalformedIdentifier)
    }
}

/// Whether `line` announces a lobby: whether the marker stands in it.
pub open spec fn is_trigger(line: Seq<char>) -> bool {
    occurs_in(TRIGGER_PATTERN@, line)
}

/// The tags that the engine finds in `line`, in the order of the line.
pub open spec fn line_tags(line: Seq<char>) -> Seq<Seq<char>> {
    match pattern_find_all(TAG_PATTERN@, line) {
        Some(tags) => tags,
        None => Seq::empty(),
    }
}

/// The identifiers that `line` carries: those of its tags, each tag once, in
/// the order in which the tags first appear.
pub open spec fn spec_fetch_player_ids(line: Seq<char>) -> Seq<i32> {
    spec_tag_ids(first_occurrences(line_tags(line)))
}

/// What the matcher makes of `line`: no event unless the line announces a
/// lobby, else the identifiers it carries.
pub open spec fn spec_match_line(line: Seq<char>) -> Option<Seq<i32>> {
    if is_trigger(line) {
        Some(spec_fetch_player_ids(line))
    } else {
        None
    }
}

impl MatchResult {
    /// The identifiers of an event, `None` for no event.
    pub open spec fn view(&self) -> Option<Seq<i32>> {
        match self {
            MatchResult::NoEvent => None,
            MatchResult::Event(ids) => Some(ids@),
        }
    }
}

/// Reads the identifier out of one tag.
pub fn tag_id(tag: &str) -> (r: Option<i32>)
    ensures
        r == spec_tag_id(tag@),
{
    let bytes = tag.as_bytes();
    let n: usize = bytes.len();
    if n < TAG_PREFIX_LEN + TAG_SUFFIX_LEN {
        return None;
    }
    parse_i32(slice_subrange(bytes, TAG_PREFIX_LEN, n - TAG_SUFFIX_LEN))
}

/// Turns the tags matched in a line into player identifiers: a tag that
/// repeats an earlier one is dropped, the others are read in order. Fails as
/// a whole if one of them does not carry a signed 32-bit integer.
pub fn player_ids_from_tags(tags: &Vec<String>) -> (r: Result<Vec<i32>, ExtractError>)
    ensures
        match r {
            Ok(ids) => spec_player_ids(tags.deep_view()) == Ok::<Seq<i32>, ExtractError>(ids@),
            Err(e) => spec_player_ids(tags.deep_view()) == Err::<Seq<i32>, ExtractError>(e),
        },
{
    let distinct = unique_strings(tags);
    let mut ids: Vec<i32> = Vec::new();
    let mut i: usize = 0;
    while i < distinct.len()
        invariant
            i <= distinct.len(),
            ids.len() == i,
            distinct.deep_view() == first_occurrences(tags.deep_view()),
            forall|j: int| 0 <= j < i ==> spec_tag_id(#[trigger] distinct.deep_view()[j]) == Some(ids[j]),
        decreases distinct.len() - i,
    {
        assert(distinct.deep_view()[i as int] == distinct[i as int]@);
        match tag_id(distinct[i].as_str()) {
            Some(id) => {
                ids.push(id);
            },
            None => {
                assert(!all_tags_parse(distinct.deep_view()));
                return Err(ExtractError::MalformedIdentifier);
            },
        }
        i = i + 1;
    }
    assert(ids@ =~= spec_tag_ids(distinct.deep_view()));
    Ok(ids)
}

/// Finds every match of the regular expression `pattern` in `text`.
pub fn find_matches(pattern: &str, text: &str) -> (r: Result<Vec<String>, ExtractError>)
    ensures
        match r {
            Ok(found) => pattern_find_all(pattern@, text@) == Some(found.deep_view()),
            Err(e) => e == ExtractError::PatternRejected && pattern_find_all(pattern@, text@)
                is None,
        },
{
    match regex_find_all(pattern, text) {
        Some(found) => Ok(found),
        None => Err(ExtractError::PatternRejected),
    }
}

/// Tells whether a line announces a lobby: whether it contains the marker.
pub fn dota_match_log_message(text: &str) -> (b: bool)
    ensures
        b == is_trigger(text@),
{
    proof {
        reveal_strlit("Lobby");
    }
    match regex_is_match(TRIGGER_PATTERN, text) {
        Some(found) => found,
        None => unreached(),
    }
}

/// Extracts the player identifiers from the tags of a line: one for each
/// distinct tag, in the order in which the tags first appear. Every tag that
/// is found carries one, so this never fails.
pub fn fetch_player_ids(text: &str) -> (ids: Vec<i32>)
    ensures
        ids@ == spec_fetch_player_ids(text@),
        spec_player_ids(line_tags(text@)) == Ok::<Seq<i32>, ExtractError>(ids@),
        all_ascii_tags(line_tags(text@)),
{
    let tags = match regex_find_all(TAG_PATTERN, text) {
        Some(tags) => tags,
        None => unreached(),
    };
    proof {
        lemma_ascii_tags_always_extract(tags.deep_view());
    }
    match player_ids_from_tags(&tags) {
        Ok(ids) => ids,
        Err(_) => unreached(),
    }
}

/// Runs the matcher on one line.
pub fn match_line(line: &str) -> (m: MatchResult)
    ensures
        m@ == spec_match_line(line@),
{
    if dota_match_log_message(line) {
        MatchResult::Event(fetch_player_ids(line))
    } else {
        MatchResult::NoEvent
    }
}

/// Where `x` first stands in `s`; the length of `s` where it does not occur.
pub open spec fn first_index<T>(s: Seq<T>, x: T) -> int
    decreases s.len(),
{
    if s.len() == 0 {
        0
    } else if s.first() == x {
        0
    } else {
        1 + first_index(s.drop_first(), x)
    }
}

/// `first_index` is the least index at which `x` stands in `s`.
pub proof fn lemma_first_index<T>(s: Seq<T>, x: T)
    ensures
        0 <= first_index(s, x) <= s.len(),
        forall|j: int| 0 <= j < first_index(s, x) ==> s[j] != x,
        s.contains(x) <==> first_index(s, x) < s.len(),
        first_index(s, x) < s.len() ==> s[first_index(s, x)] == x,
    decreases s.len(),
{
    if s.len() > 0 && s.first() != x {
        let rest = s.drop_first();
        lemma_first_index(rest, x);
        assert forall|j: int| 0 <= j < first_index(s, x) implies s[j] != x by {
            if j > 0 {
                assert(s[j] == rest[j - 1]);
            }
        }
        if s.contains(x) {
            let i = choose|i: int| 0 <= i < s.len() && s[i] == x;
            assert(rest[i - 1] == x);
        }
        if first_index(rest, x) < rest.len() {
            assert(s[first_index(rest, x) + 1] == x);
        }
    }
}

/// Deduplication keeps exactly the items of the input, each once, and in the
/// order in which they first occur in it.
pub proof fn lemma_first_occurrences<T>(s: Seq<T>)
    ensures
        first_occurrences(s).no_duplicates(),
        forall|x: T| s.contains(x) <==> first_occurrences(s).contains(x),
        forall|a: int, b: int|
            0 <= a < b < first_occurrences(s).len() ==> first_index(
                s,
                #[trigger] first_occurrences(s)[a],
            ) < first_index(s, #[trigger] first_occurrences(s)[b]),
    decreases s.len(),
{
    let kept = first_occurrences(s);
    if s.len() > 0 {
        let init = s.drop_last();
        let kept_init = first_occurrences(init);
        lemma_first_occurrences(init);
        assert forall|x: T| s.contains(x) <==> kept.contains(x) by {
            if s.contains(x) {
                let i = choose|i: int| 0 <= i < s.len() && s[i] == x;
                if i < init.len() {
                    assert(init[i] == x);
                    assert(init.contains(x));
                    assert(kept_init.contains(x));
                    let k = choose|k: int| 0 <= k < kept_init.len() && kept_init[k] == x;
                    assert(kept[k] == x);
                } else if kept_init.contains(x) {
                    let k = choose|k: int| 0 <= k < kept_init.len() && kept_init[k] == x;
                    assert(kept[k] == x);
                } else {
                    assert(kept[kept.len() - 1] == x);
                }
            }
            if kept.contains(x) {
                let k = choose|k: int| 0 <= k < kept.len() && kept[k] == x;
                if k < kept_init.len() {
                    assert(kept_init[k] == x);
                    assert(kept_init.contains(x));
                    assert(init.contains(x));
                    let i = choose|i: int| 0 <= i < init.len() && init[i] == x;
                    assert(s[i] == x);
                } else {
                    assert(s[s.len() - 1] == x);
                }
            }
        }
        assert forall|a: int, b: int| 0 <= a < b < kept.len() implies first_index(
            s,
            #[trigger] kept[a],
        ) < first_index(s, #[trigger] kept[b]) by {
            lemma_first_index_prefix(s, kept[a]);
            lemma_first_index_prefix(s, kept[b]);
            lemma_first_index(init, kept[a]);
            lemma_first_index(init, kept[b]);
            assert(kept_init[a] == kept[a]);
            assert(kept_init.contains(kept[a]));
            if b < kept_init.len() {
                assert(kept_init[b] == kept[b]);
                assert(kept_init.contains(kept[b]));
            } else {
                assert(kept[b] == s.last());
                assert(!kept_init.contains(s.last()));
            }
        }
    }
}

/// Appending an item to a sequence moves no first occurrence in it.
proof fn lemma_first_index_prefix<T>(s: Seq<T>, x: T)
    requires
        s.len() > 0,
    ensures
        s.drop_last().contains(x) ==> first_index(s, x) == first_index(s.drop_last(), x),
        !s.drop_last().contains(x) ==> first_index(s, x) >= s.len() - 1,
{
    let init = s.drop_last();
    lemma_first_index(s, x);
    lemma_first_index(init, x);
    if init.contains(x) {
        let i = first_index(init, x);
        let j = first_index(s, x);
        assert(s[i] == x);
        if j < i {
            assert(init[j] == x);
        }
    } else {
        let j = first_index(s, x);
        if j < s.len() - 1 {
            assert(init[j] == x);
        }
    }
}

/// A line without the marker is no event, whatever tags it holds.
pub proof fn lemma_non_trigger_is_no_event(line: Seq<char>)
    requires
        !is_trigger(line),
    ensures
        spec_match_line(line) == None::<Seq<i32>>,
{
}

/// A line with the marker and no tag at all is an event without players.
pub proof fn lemma_trigger_without_tags(line: Seq<char>)
    requires
        is_trigger(line),
        line_tags(line) == Seq::<Seq<char>>::empty(),
    ensures
        spec_match_line(line) == Some(Seq::<i32>::empty()),
{
    let none = Seq::<Seq<char>>::empty();
    assert(first_occurrences(none) =~= none);
    assert(spec_tag_ids(none) =~= Seq::<i32>::empty());
}

/// A word that stands in a text at some position stands in it.
pub proof fn lemma_occurs_at(needle: Seq<char>, text: Seq<char>, i: int)
    requires
        occurs_at(needle, text, i),
    ensures
        occurs_in(needle, text),
{
}

/// A word whose first letter stands nowhere in a text does not stand in it.
pub proof fn lemma_absent_without_first_letter(needle: Seq<char>, text: Seq<char>)
    requires
        needle.len() > 0,
        forall|i: int| 0 <= i < text.len() ==> #[trigger] text[i] != needle[0],
    ensures
        !occurs_in(needle, text),
{
    assert forall|i: int| !occurs_at(needle, text, i) by {
        if occurs_at(needle, text, i) {
            assert(text.subrange(i, i + needle.len())[0] == needle[0]);
            assert(text[i] != needle[0]);
        }
    }
}

/// A tag always carries an identifier, the number that its digits write:
/// eight or nine digits never leave the range of a signed 32-bit integer.
pub proof fn lemma_ascii_tag_carries_its_number(tag: Seq<char>)
    requires
        is_ascii_tag(tag),
    ensures
        spec_tag_id(tag) == Some(decimal_value(ascii_bytes(tag_digits(tag))) as i32),
        decimal_value(ascii_bytes(tag_digits(tag))) <= 999_999_999,
        TAG_MIN_DIGITS <= tag_digits(tag).len() <= TAG_MAX_DIGITS,
{
    let bytes = encode_utf8(tag);
    let digits = tag_digits(tag);
    assert forall|i: int| 0 <= i < tag.len() implies '\0' <= #[trigger] tag[i] <= '\u{7f}' by {
        if i < TAG_PREFIX_LEN {
            assert(tag.subrange(0, TAG_PREFIX_LEN as int)[i] == tag[i]);
        }
    }
    assert(is_ascii_chars(tag));
    is_ascii_chars_encode_utf8(tag);
    let run = bytes.subrange(TAG_PREFIX_LEN as int, bytes.len() - TAG_SUFFIX_LEN);
    assert forall|i: int| 0 <= i < run.len() implies run[i] == ascii_bytes(digits)[i] by {
        assert(run[i] == bytes[i + TAG_PREFIX_LEN]);
        assert(tag[i + TAG_PREFIX_LEN] == digits[i]);
    }
    assert(run =~= ascii_bytes(digits));
    assert forall|i: int| 0 <= i < run.len() implies is_digit(#[trigger] run[i]) by {
        assert('0' <= tag[i + TAG_PREFIX_LEN] <= '9');
    }
    assert(all_digits(run));
    lemma_nine_digits_parse(run);
}

/// Tags never fail an extraction: the result has one identifier for each
/// distinct tag.
pub proof fn lemma_ascii_tags_always_extract(tags: Seq<Seq<char>>)
    requires
        all_ascii_tags(tags),
    ensures
        spec_player_ids(tags) == Ok::<Seq<i32>, ExtractError>(
            spec_tag_ids(first_occurrences(tags)),
        ),
        spec_tag_ids(first_occurrences(tags)).len() == first_occurrences(tags).len(),
        all_ascii_tags(first_occurrences(tags)),
{
    let distinct = first_occurrences(tags);
    lemma_first_occurrences(tags);
    assert forall|k: int| 0 <= k < distinct.len() implies is_ascii_tag(#[trigger] distinct[k])
        && spec_tag_id(distinct[k]) is Some by {
        assert(distinct.contains(distinct[k]));
        assert(tags.contains(distinct[k]));
        let i = choose|i: int| 0 <= i < tags.len() && tags[i] == distinct[k];
        assert(is_ascii_tag(tags[i]));
        lemma_ascii_tag_carries_its_number(tags[i]);
    }
}

} // verus!
