pub mod menu;

use bstr::ByteSlice;
use vstd::prelude::*;
use vstd::utf8::{decode_utf8, encode_utf8, valid_utf8};

use crate::text::{decimal, decimal_string, is_space, parse_u64, parsed_u64, string_of};

verus! {

/// What a search result points at.
#[derive(Default, Debug, Clone, Copy, PartialEq, Eq, Structural)]
pub enum SearchItemType {
    FILE,
    #[default]
    TEXT,
    DIRECTORY,
}

/// One search result: a text to show and match against, an optional
/// location, and its kind.
#[derive(Default, Debug, Clone, PartialEq)]
pub struct SearchItem {
    display: String,
    metadata: Option<String>,
    item_type: SearchItemType,
}

/// What a `SearchItem` holds, as text.
pub struct SearchItemView {
    pub display: Seq<char>,
    pub metadata: Option<Seq<char>>,
    pub item_type: SearchItemType,
}

impl View for SearchItem {
    type V = SearchItemView;

    closed spec fn view(&self) -> SearchItemView {
        SearchItemView {
            display: self.display@,
            metadata: match self.metadata {
                Some(m) => Some(m@),
                None => None,
            },
            item_type: self.item_type,
        }
    }
}

impl SearchItem {
    pub fn new(search_text: &str, metadata: Option<&str>, item_type: SearchItemType) -> (r: Self)
        ensures
            r@.display == search_text@,
            r@.metadata == (match metadata {
                Some(m) => Some(m@),
                None => None::<Seq<char>>,
            }),
            r@.item_type == item_type,
    {
        let metadata = match metadata {
            Some(text) => Some(text.to_owned()),
            None => None,
        };
        SearchItem { display: search_text.to_owned(), metadata, item_type }
    }

    pub fn display(&self) -> (r: &str)
        ensures
            r@ == self@.display,
    {
        self.display.as_str()
    }

    pub fn item_type(&self) -> (r: SearchItemType)
        ensures
            r == self@.item_type,
    {
        self.item_type
    }

    pub fn metadata(&self) -> (r: Option<&str>)
        ensures
            r matches Some(m) ==> self@.metadata == Some(m@),
            r is None ==> self@.metadata is None,
    {
        match &self.metadata {
            Some(m) => Some(m.as_str()),
            None => None,
        }
    }

    /// The path the result points at, and its line number if it is a line.
    pub fn location(&self) -> (r: (String, Option<u64>))
        ensures
            r.0@ == location_of(self@).0,
            r.1 == location_of(self@).1,
    {
        match &self.metadata {
            None => (self.display.clone(), None),
            Some(m) => {
                let cs = crate::text::chars_of(m.as_str());
                proof {
                    lemma_last_colon(cs@);
                }
                let mut k: usize = cs.len();
                while k > 0
                    invariant
                        k <= cs@.len(),
                        cs@ == m@,
                        forall|i: int| k <= i < cs@.len() ==> cs@[i] != ':',
                        last_colon(cs@) < k,
                        -1 <= last_colon(cs@) < cs@.len(),
                        last_colon(cs@) >= 0 ==> cs@[last_colon(cs@)] == ':',
                        forall|i: int| last_colon(cs@) < i < cs@.len() ==> cs@[i] != ':',
                    ensures
                        k <= cs@.len(),
                        forall|i: int| k <= i < cs@.len() ==> cs@[i] != ':',
                        last_colon(cs@) < k,
                        k > 0 ==> cs@[k - 1] == ':',
                    decreases k,
                {
                    if cs[k - 1] == ':' {
                        break;
                    }
                    k = k - 1;
                }
                if k == 0 {
                    assert(last_colon(cs@) == -1);
                    (m.clone(), None)
                } else {
                    assert(last_colon(cs@) == k - 1);
                    let path = string_of(vstd::slice::slice_subrange(cs.as_slice(), 0, k - 1));
                    let rest = string_of(vstd::slice::slice_subrange(cs.as_slice(), k, cs.len()));
                    assert(path@ =~= cs@.take(k - 1));
                    assert(rest@ =~= cs@.skip(k as int));
                    (path, parse_u64(rest.as_str()))
                }
            },
        }
    }

    /// A copy of the item.
    pub fn duplicate(&self) -> (r: Self)
        ensures
            r == *self,
    {
        let metadata = match &self.metadata {
            Some(m) => Some(m.clone()),
            None => None,
        };
        SearchItem { display: self.display.clone(), metadata, item_type: self.item_type }
    }
}

/// The index of the last colon in `m`, or -1 if it has none.
pub open spec fn last_colon(m: Seq<char>) -> int
    decreases m.len(),
{
    if m.len() == 0 {
        -1
    } else if m.last() == ':' {
        m.len() - 1
    } else {
        last_colon(m.drop_last())
    }
}

proof fn lemma_last_colon(m: Seq<char>)
    ensures
        -1 <= last_colon(m) < m.len(),
        last_colon(m) >= 0 ==> m[last_colon(m)] == ':',
        forall|i: int| last_colon(m) < i < m.len() ==> m[i] != ':',
    decreases m.len(),
{
    if m.len() > 0 && m.last() != ':' {
        lemma_last_colon(m.drop_last());
        assert forall|i: int| last_colon(m) < i < m.len() implies m[i] != ':' by {
            if i < m.len() - 1 {
                assert(m.drop_last()[i] == m[i]);
            }
        }
    }
}

/// Where a result points: for a matching line, the path and line number
/// written in its location (`path:line`); otherwise its text, the path of
/// the file or directory found.
pub open spec fn location_of(v: SearchItemView) -> (Seq<char>, Option<u64>) {
    match v.metadata {
        None => (v.display, None),
        Some(m) => {
            let k = last_colon(m);
            if k < 0 { (m, None) } else { (m.take(k), parsed_u64(m.skip(k + 1))) }
        },
    }
}

/// The score that `nucleo` gives `text` for the query `query`, parsed with
/// case ignored and smart normalization; `None` where it does not match.
pub uninterp spec fn fuzzy_match_score(query: Seq<char>, text: Seq<char>) -> Option<u32>;

/// The number of non-empty parts of `s` between spaces. `nucleo` splits a
/// query into words at its spaces (those not escaped by `\`) and drops
/// the words left empty, so each of its words holds at least one of these
/// parts and no two hold the same one.
pub open spec fn space_words(s: Seq<char>) -> nat
    decreases s.len(),
{
    if s.len() == 0 {
        0
    } else {
        space_words(s.drop_last()) + if s.last() != ' ' && (s.len() == 1 || s[s.len() - 2] == ' ') {
            1nat
        } else {
            0nat
        }
    }
}

/// `nucleo::pattern::Pattern::parse` and `Pattern::score`: scores `text`
/// against `query`. The result is named, as a function of the two texts;
/// the one fact stated of it is the crate's own shortcut, that a query
/// without words (here: an empty one) matches everything with score 0.
/// `Pattern::score` adds the `u16` scores of the query's words in a `u32`;
/// at most 65537 of them cannot overflow it.
#[verifier::external_body]
fn fuzzy_score(query: &str, text: &str) -> (r: Option<u32>)
    requires
        space_words(query@) <= 65537,
    ensures
        r == fuzzy_match_score(query@, text@),
        query@.len() == 0 ==> r == Some(0u32),
{
    let pattern = nucleo::pattern::Pattern::parse(
        query,
        nucleo::pattern::CaseMatching::Ignore,
        nucleo::pattern::Normalization::Smart,
    );
    let mut matcher = nucleo::Matcher::new(nucleo::Config::DEFAULT);
    let mut buffer = Vec::new();
    pattern.score(nucleo::Utf32Str::new(text, &mut buffer), &mut matcher)
}

/// Scores a candidate result against the query: the pair to report, or
/// `None` where the query does not match its text.
pub fn score_item(query: &str, item: SearchItem) -> (r: Option<(u32, SearchItem)>)
    requires
        space_words(query@) <= 65537,
    ensures
        r == (match fuzzy_match_score(query@, item@.display) {
            Some(s) => Some((s, item)),
            None => None,
        }),
{
    match fuzzy_score(query, item.display()) {
        Some(score) => Some((score, item)),
        None => None,
    }
}

/// What `bstr` leaves of `bytes` when it trims trailing whitespace.
pub uninterp spec fn trimmed_end(bytes: Seq<u8>) -> Seq<u8>;

/// Every character of `ws` is whitespace (Unicode `White_Space`).
pub open spec fn all_whitespace(ws: Seq<char>) -> bool {
    forall|k: int| 0 <= k < ws.len() ==> is_space(#[trigger] ws[k])
}

/// `t` is `bytes` without its trailing whitespace: `bytes` is `t` followed
/// by the UTF-8 form of whitespace characters, and `t` does not end with
/// the UTF-8 form of one.
pub open spec fn trims_whitespace(bytes: Seq<u8>, t: Seq<u8>) -> bool {
    &&& exists|ws: Seq<char>| #[trigger] all_whitespace(ws) && bytes == t + encode_utf8(ws)
    &&& forall|c: char| is_space(c) ==> !(#[trigger] encode_utf8(seq![c])).is_suffix_of(t)
}

/// `bstr::ByteSlice::trim_end`: `bytes` without its trailing whitespace,
/// which bstr's documentation defines by the Unicode `White_Space`
/// property (its code removes the longest suffix that a reverse `\s+`
/// automaton matches). The result is named, and stated to be that prefix.
#[verifier::external_body]
fn trim_end(bytes: &[u8]) -> (r: &[u8])
    ensures
        r@ == trimmed_end(bytes@),
        trims_whitespace(bytes@, r@),
{
    bytes.trim_end()
}

/// The text that lossy UTF-8 decoding makes of `bytes`.
pub uninterp spec fn lossy_utf8(bytes: Seq<u8>) -> Seq<char>;

/// `String::from_utf8_lossy`: decodes `bytes`, putting a replacement
/// character in place of invalid sequences; valid UTF-8 decodes exactly.
#[verifier::external_body]
fn from_utf8_lossy(bytes: &[u8]) -> (r: String)
    ensures
        r@ == lossy_utf8(bytes@),
        valid_utf8(bytes@) ==> r@ == decode_utf8(bytes@),
{
    String::from_utf8_lossy(bytes).into_owned()
}

/// Decodes bytes, replacing invalid UTF-8.
pub fn decode_lossy(bytes: &[u8]) -> (r: String)
    ensures
        r@ == lossy_utf8(bytes@),
        valid_utf8(bytes@) ==> r@ == decode_utf8(bytes@),
{
    from_utf8_lossy(bytes)
}

/// The location of a matching line: the path, a colon, the line number.
pub open spec fn line_location(path: Seq<char>, line_number: Option<u64>) -> Seq<char> {
    path + seq![':'] + decimal(
        match line_number {
            Some(n) => n as nat,
            None => 0,
        },
    )
}

/// The result for one line of a searched file: the line without trailing
/// whitespace, at `path:line`.
pub fn line_item(path_str: &str, line_number: Option<u64>, line: &[u8]) -> (r: SearchItem)
    ensures
        r@.display == lossy_utf8(trimmed_end(line@)),
        trims_whitespace(line@, trimmed_end(line@)),
        r@.metadata == Some(line_location(path_str@, line_number)),
        r@.item_type == SearchItemType::TEXT,
{
    let content = from_utf8_lossy(trim_end(line));
    let n: u64 = match line_number {
        Some(n) => n,
        None => 0,
    };
    let mut metadata = String::from_str(path_str);
    metadata.append(":");
    proof {
        reveal_strlit(":");
    }
    let number = decimal_string(n);
    metadata.append(number.as_str());
    SearchItem { display: content, metadata: Some(metadata), item_type: SearchItemType::TEXT }
}

/// The result for a directory entry met by the walk: directories and files
/// are reported by their path, anything else is skipped.
pub fn entry_item(path_str: &str, is_dir: bool, is_file: bool) -> (r: Option<SearchItem>)
    ensures
        is_dir ==> (r matches Some(i) && i@.display == path_str@ && i@.metadata is None
            && i@.item_type == SearchItemType::DIRECTORY),
        !is_dir && is_file ==> (r matches Some(i) && i@.display == path_str@ && i@.metadata is None
            && i@.item_type == SearchItemType::FILE),
        !is_dir && !is_file ==> r is None,
{
    if is_dir {
        Some(SearchItem::new(path_str, None, SearchItemType::DIRECTORY))
    } else if is_file {
        Some(SearchItem::new(path_str, None, SearchItemType::FILE))
    } else {
        None
    }
}

} // verus!
