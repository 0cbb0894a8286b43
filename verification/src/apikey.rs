//! Working out the Syncthing API key from the places it can come from.
//!
//! Reading files and the environment is the caller's business; this module
//! decides, from what was read, which key wins.
use vstd::prelude::*;

use crate::text::{
    chars_of, find, find_chars, find_from, is_white_space, lemma_find_from, lemma_trim_cut, occurs_at,
    trim, trim_bounds,
};

verus! {

/// The opening tag of the element that holds the key in Syncthing's config.
pub open spec fn open_tag() -> Seq<char> {
    seq!['<', 'a', 'p', 'i', 'k', 'e', 'y', '>']
}

/// The closing tag of that element.
pub open spec fn close_tag() -> Seq<char> {
    seq!['<', '/', 'a', 'p', 'i', 'k', 'e', 'y', '>']
}

/// The API key held in a Syncthing config: the trimmed text between the first
/// `<apikey>` and the first `</apikey>` after it, when that text is not empty.
pub open spec fn api_key_in(xml: Seq<char>) -> Option<Seq<char>> {
    match find(xml, open_tag()) {
        None => None,
        Some(i) => match find_from(xml, close_tag(), i + open_tag().len()) {
            None => None,
            Some(j) => {
                let key = trim(xml.subrange(i + open_tag().len(), j));
                if key.len() == 0 {
                    None
                } else {
                    Some(key)
                }
            },
        },
    }
}

/// The value given to `name` by the first entry that names it.
pub open spec fn value_for(entries: Seq<Option<(String, String)>>, name: Seq<char>) -> Option<
    Seq<char>,
>
    decreases entries.len(),
{
    if entries.len() == 0 {
        None
    } else {
        match entries[0] {
            Some(entry) if entry.0@ == name => Some(entry.1@),
            _ => value_for(entries.drop_first(), name),
        }
    }
}

/// The position of the first config text that holds a key.
pub open spec fn first_config_with_key(xmls: Seq<String>) -> Option<int> {
    if exists|i: int| 0 <= i < xmls.len() && api_key_in(#[trigger] xmls[i]@) is Some {
        Some(
            choose|i: int|
                0 <= i < xmls.len() && api_key_in(#[trigger] xmls[i]@) is Some && forall|j: int|
                    0 <= j < i ==> api_key_in(#[trigger] xmls[j]@) is None,
        )
    } else {
        None
    }
}

/// `pat` occurs in `s` at `k`, and nowhere from `from` up to `k`.
pub open spec fn first_occurrence(s: Seq<char>, pat: Seq<char>, from: int, k: int) -> bool {
    &&& from <= k
    &&& occurs_at(s, pat, k)
    &&& forall|m: int| from <= m < k ==> !occurs_at(s, pat, m)
}

/// `xml[a..b]` is the text of the element between the `<apikey>` at `i` and
/// the `</apikey>` at `j`, when those are the first `<apikey>` and the first
/// `</apikey>` after it: only white space surrounds it there, and it neither
/// starts nor ends with white space.
pub open spec fn key_span_at(xml: Seq<char>, i: int, j: int, a: int, b: int) -> bool {
    &&& first_occurrence(xml, open_tag(), 0, i)
    &&& first_occurrence(xml, close_tag(), i + open_tag().len(), j)
    &&& i + open_tag().len() <= a < b <= j
    &&& forall|m: int| i + open_tag().len() <= m < a ==> is_white_space(#[trigger] xml[m])
    &&& forall|m: int| b <= m < j ==> is_white_space(#[trigger] xml[m])
    &&& !is_white_space(xml[a])
    &&& !is_white_space(xml[b - 1])
}

/// `xml[a..b]` is the text of the first `<apikey>` element, without the white
/// space around it.
pub open spec fn key_span(xml: Seq<char>, a: int, b: int) -> bool {
    exists|i: int, j: int| #[trigger] key_span_at(xml, i, j, a, b)
}

/// A pattern's first occurrence from a position is the only one.
proof fn lemma_first_occurrence_unique(s: Seq<char>, pat: Seq<char>, from: int, k1: int, k2: int)
    requires
        first_occurrence(s, pat, from, k1),
        first_occurrence(s, pat, from, k2),
    ensures
        k1 == k2,
{
    if k1 < k2 {
        assert(!occurs_at(s, pat, k1));
    } else if k2 < k1 {
        assert(!occurs_at(s, pat, k2));
    }
}

/// The key found in a config is the whole text of its first `<apikey>`
/// element, without the white space around it, however long: the key is
/// found exactly when that text is not blank, and it is then that text.
pub proof fn law_key_is_the_whole_element_text(xml: Seq<char>)
    ensures
        api_key_in(xml) is Some ==> exists|a: int, b: int|
            key_span(xml, a, b) && api_key_in(xml) == Some(xml.subrange(a, b)),
        api_key_in(xml) is None ==> forall|a: int, b: int| !key_span(xml, a, b),
{
    let n = open_tag().len();
    lemma_find_from(xml, open_tag(), 0);
    match find(xml, open_tag()) {
        None => {
            assert forall|a: int, b: int| !key_span(xml, a, b) by {
                if key_span(xml, a, b) {
                    let (i, j) = choose|i: int, j: int| key_span_at(xml, i, j, a, b);
                    assert(occurs_at(xml, open_tag(), i));
                }
            }
        },
        Some(i) => {
            assert(first_occurrence(xml, open_tag(), 0, i));
            lemma_find_from(xml, close_tag(), i + n);
            match find_from(xml, close_tag(), i + n) {
                None => {
                    assert forall|a: int, b: int| !key_span(xml, a, b) by {
                        if key_span(xml, a, b) {
                            let (i2, j) = choose|i2: int, j: int| key_span_at(xml, i2, j, a, b);
                            lemma_first_occurrence_unique(xml, open_tag(), 0, i, i2);
                            assert(occurs_at(xml, close_tag(), j));
                        }
                    }
                },
                Some(j) => {
                    assert(first_occurrence(xml, close_tag(), i + n, j));
                    let inner = xml.subrange(i + n, j);
                    let (c, d) = lemma_trim_cut(inner);
                    let a = i + n + c;
                    let b = i + n + d;
                    assert forall|m: int| i + n <= m < a implies is_white_space(#[trigger] xml[m]) by {
                        assert(xml[m] == inner[m - (i + n)]);
                    }
                    assert forall|m: int| b <= m < j implies is_white_space(#[trigger] xml[m]) by {
                        assert(xml[m] == inner[m - (i + n)]);
                    }
                    assert(inner.subrange(c, d) =~= xml.subrange(a, b));
                    if c < d {
                        assert(xml[a] == inner[c]);
                        assert(xml[b - 1] == inner[d - 1]);
                        assert(key_span_at(xml, i, j, a, b));
                        assert(key_span(xml, a, b));
                        assert(trim(inner) == xml.subrange(a, b));
                        assert(xml.subrange(a, b).len() > 0);
                        assert(api_key_in(xml) == Some(xml.subrange(a, b)));
                        assert(key_span(xml, a, b) && api_key_in(xml) == Some(xml.subrange(a, b)));
                    } else {
                        assert forall|a2: int, b2: int| !key_span(xml, a2, b2) by {
                            if key_span(xml, a2, b2) {
                                let (i2, j2) = choose|i2: int, j2: int| key_span_at(xml, i2, j2, a2, b2);
                                lemma_first_occurrence_unique(xml, open_tag(), 0, i, i2);
                                lemma_first_occurrence_unique(xml, close_tag(), i + n, j, j2);
                                // Blank text: every character between the tags is white space.
                                assert(xml[a2] == inner[a2 - (i + n)]);
                                if a2 - (i + n) < c {
                                } else {
                                    assert(is_white_space(inner[a2 - (i + n)]));
                                }
                            }
                        }
                    }
                },
            }
        },
    }
}

/// Work out the API key, in descending order of explicitness: the one given
/// on the command line (or by `SYNCTHING_API_KEY` in the environment), the one
/// in `~/.env`, and last the one Syncthing wrote into its own config.
pub fn resolve(from_cli: Option<String>, from_dotenv: Option<String>, from_config: Option<String>) -> (r: Option<String>)
    ensures
        r == if from_cli is Some {
            from_cli
        } else if from_dotenv is Some {
            from_dotenv
        } else {
            from_config
        },
{
    if from_cli.is_some() {
        return from_cli;
    }
    if from_dotenv.is_some() {
        return from_dotenv;
    }
    from_config
}

/// Pull the contents of the single `<apikey>` element out of Syncthing's
/// config.
///
/// The key is always plain alphanumeric, so there are no entities or
/// attributes to decode, and this is the only element ever read from the file.
pub fn extract_api_key(xml: &str) -> (r: Option<&str>)
    ensures
        match r {
            Some(key) => api_key_in(xml@) == Some(key@),
            None => api_key_in(xml@) is None,
        },
{
    let v = chars_of(xml);
    let open_chars = vec!['<', 'a', 'p', 'i', 'k', 'e', 'y', '>'];
    let close_chars = vec!['<', '/', 'a', 'p', 'i', 'k', 'e', 'y', '>'];
    assert(open_chars@ =~= open_tag());
    assert(close_chars@ =~= close_tag());
    proof {
        lemma_find_from(v@, open_chars@, 0);
    }
    let i = match find_chars(&v, &open_chars, 0) {
        Some(i) => i,
        None => return None,
    };
    assert(occurs_at(v@, open_chars@, i as int));
    assert(i + open_chars@.len() <= v.len());
    assert(open_chars@.len() == 8);
    let start = i + open_chars.len();
    proof {
        lemma_find_from(v@, close_chars@, start as int);
    }
    let j = match find_chars(&v, &close_chars, start) {
        Some(j) => j,
        None => return None,
    };
    let (a, b) = trim_bounds(&v, start, j);
    if a == b {
        return None;
    }
    Some(xml.substring_char(a, b))
}

/// The value that the first entry named `SYNCTHING_API_KEY` gives, where the
/// entries are what a dotenv file was read into (`None` for a line that did
/// not parse).
pub fn key_from_entries(entries: &Vec<Option<(String, String)>>) -> (r: Option<String>)
    ensures
        match r {
            Some(v) => value_for(entries@, "SYNCTHING_API_KEY"@) == Some(v@),
            None => value_for(entries@, "SYNCTHING_API_KEY"@) is None,
        },
{
    let wanted = String::from_str("SYNCTHING_API_KEY");
    let mut i: usize = 0;
    assert(entries@.skip(0) =~= entries@);
    while i < entries.len()
        invariant
            i <= entries.len(),
            wanted@ == "SYNCTHING_API_KEY"@,
            value_for(entries@, "SYNCTHING_API_KEY"@) == value_for(
                entries@.skip(i as int),
                "SYNCTHING_API_KEY"@,
            ),
        decreases entries.len() - i,
    {
        assert(entries@.skip(i as int).drop_first() =~= entries@.skip(i + 1));
        match &entries[i] {
            Some(entry) => {
                if entry.0 == wanted {
                    return Some(entry.1.clone());
                }
            },
            None => {},
        }
        i = i + 1;
    }
    None
}

/// Whether `name`, a run of ASCII characters, is spelled out in `bytes`
/// starting at position `k`.
pub open spec fn spelled_at(bytes: Seq<u8>, name: Seq<char>, k: int) -> bool {
    &&& 0 <= k
    &&& k + name.len() <= bytes.len()
    &&& forall|t: int| 0 <= t < name.len() ==> bytes[k + t] as int == #[trigger] name[t] as int
}

/// Whether `name` is spelled out somewhere in `bytes`.
pub open spec fn spelled_in(bytes: Seq<u8>, name: Seq<char>) -> bool {
    exists|k: int| spelled_at(bytes, name, k)
}

/// A character that a dotenv variable name may hold.
pub open spec fn is_name_char(c: char) -> bool {
    ('a' <= c <= 'z') || ('A' <= c <= 'Z') || ('0' <= c <= '9') || c == '_' || c == '.'
}

/// What every parsed entry of a dotenv file's contents has: a name that is a
/// non-empty run of name characters written out in the contents.
pub open spec fn names_come_from(contents: Seq<u8>, entries: Seq<Option<(String, String)>>) -> bool {
    forall|i: int|
        0 <= i < entries.len() && entries[i] is Some ==> {
            let name = (#[trigger] entries[i]).unwrap().0@;
            &&& name.len() > 0
            &&& forall|t: int| 0 <= t < name.len() ==> is_name_char(#[trigger] name[t])
            &&& spelled_in(contents, name)
        }
}

/// What `dotenvy::from_read_iter` parses out of a dotenv file's contents when
/// the environment has nothing to substitute: one item per line that holds a
/// variable, `Some((name, value))`, or `None` where the line did not parse.
pub uninterp spec fn dotenv_items(contents: Seq<u8>) -> Seq<Option<(Seq<char>, Seq<char>)>>;

/// Whether the contents hold a `$`, the one character that makes `dotenvy`
/// substitute anything into a value.
pub open spec fn has_dollar(contents: Seq<u8>) -> bool {
    contents.contains(36u8)
}

/// An entry read from a dotenv file against the item `item`: the same name,
/// and the same value where `with_value` holds.
pub open spec fn entry_matches(
    entry: Option<(String, String)>,
    item: Option<(Seq<char>, Seq<char>)>,
    with_value: bool,
) -> bool {
    match (entry, item) {
        (Some(e), Some(it)) => e.0@ == it.0 && (with_value ==> e.1@ == it.1),
        (None, None) => true,
        _ => false,
    }
}

/// The entries match `items` position by position.
pub open spec fn entries_match(
    entries: Seq<Option<(String, String)>>,
    items: Seq<Option<(Seq<char>, Seq<char>)>>,
    with_values: bool,
) -> bool {
    &&& entries.len() == items.len()
    &&& forall|i: int|
        0 <= i < entries.len() ==> entry_matches(#[trigger] entries[i], items[i], with_values)
}

/// The value that the first item named `name` gives.
pub open spec fn first_value(items: Seq<Option<(Seq<char>, Seq<char>)>>, name: Seq<char>) -> Option<
    Seq<char>,
>
    decreases items.len(),
{
    if items.len() == 0 {
        None
    } else {
        match items[0] {
            Some(item) if item.0 == name => Some(item.1),
            _ => first_value(items.drop_first(), name),
        }
    }
}

/// Reads a dotenv file's contents with `dotenvy::from_read_iter`, one item per
/// line that holds a variable: `Some((name, value))`, or `None` where the line
/// did not parse.
///
/// What is claimed is what `dotenvy`'s parser shows. Which lines parse, and
/// the names they carry, depend on the bytes alone: they are those of
/// `dotenv_items`. A value sees the process environment only through a `$`
/// reference (an empty name, looked up at the end of every value, finds
/// nothing), so without a `$` in the contents the values are those of
/// `dotenv_items` too. A name is cut out of one line of the contents, starts
/// with a letter or `_` and holds only ASCII letters, digits, `_` and `.`, so
/// it is spelled out in the bytes.
#[verifier::external_body]
fn dotenv_entries(contents: &[u8]) -> (entries: Vec<Option<(String, String)>>)
    ensures
        entries_match(entries@, dotenv_items(contents@), !has_dollar(contents@)),
        names_come_from(contents@, entries@),
{
    let mut entries = Vec::new();
    for item in dotenvy::from_read_iter(contents) {
        entries.push(item.ok());
    }
    entries
}

/// A value found for `name` comes from an entry of that name.
pub proof fn lemma_value_has_entry(entries: Seq<Option<(String, String)>>, name: Seq<char>)
    requires
        value_for(entries, name) is Some,
    ensures
        exists|i: int|
            0 <= i < entries.len() && (#[trigger] entries[i]) is Some && entries[i].unwrap().0@ == name,
    decreases entries.len(),
{
    match entries[0] {
        Some(entry) if entry.0@ == name => {
            assert(entries[0] is Some && entries[0].unwrap().0@ == name);
        },
        _ => {
            lemma_value_has_entry(entries.drop_first(), name);
            let i = choose|i: int|
                0 <= i < entries.drop_first().len() && (#[trigger] entries.drop_first()[i]) is Some
                    && entries.drop_first()[i].unwrap().0@ == name;
            assert(entries[i + 1] == entries.drop_first()[i]);
        },
    }
}

/// Entries that match items find a value for a name exactly when the items
/// do, and the same one where the values match too.
pub proof fn lemma_first_value_matches(
    entries: Seq<Option<(String, String)>>,
    items: Seq<Option<(Seq<char>, Seq<char>)>>,
    with_values: bool,
    name: Seq<char>,
)
    requires
        entries_match(entries, items, with_values),
    ensures
        value_for(entries, name) is Some <==> first_value(items, name) is Some,
        with_values ==> value_for(entries, name) == first_value(items, name),
    decreases entries.len(),
{
    if entries.len() > 0 {
        assert(entry_matches(entries[0], items[0], with_values));
        assert(entries_match(entries.drop_first(), items.drop_first(), with_values)) by {
            assert forall|i: int| 0 <= i < entries.drop_first().len() implies entry_matches(
                #[trigger] entries.drop_first()[i],
                items.drop_first()[i],
                with_values,
            ) by {
                assert(entry_matches(entries[i + 1], items[i + 1], with_values));
            }
        }
        lemma_first_value_matches(entries.drop_first(), items.drop_first(), with_values, name);
    }
}

/// Read `SYNCTHING_API_KEY` out of the contents of a dotenv file, without
/// loading any of its variables into the process environment.
///
/// A key is found exactly when a line of the contents parses to a variable
/// of that name, and then only where the contents spell the name out. Its
/// value is the first such line's; without a `$` in the contents, nothing is
/// substituted into it.
pub fn read_dotenv(contents: &[u8]) -> (r: Option<String>)
    ensures
        r is Some <==> first_value(dotenv_items(contents@), "SYNCTHING_API_KEY"@) is Some,
        !has_dollar(contents@) ==> first_value(dotenv_items(contents@), "SYNCTHING_API_KEY"@)
            == match r {
            Some(v) => Some(v@),
            None => None,
        },
        r is Some ==> spelled_in(contents@, "SYNCTHING_API_KEY"@),
{
    let entries = dotenv_entries(contents);
    let r = key_from_entries(&entries);
    proof {
        let name = "SYNCTHING_API_KEY"@;
        lemma_first_value_matches(
            entries@,
            dotenv_items(contents@),
            !has_dollar(contents@),
            name,
        );
        if r is Some {
            lemma_value_has_entry(entries@, name);
            let i = choose|i: int|
                0 <= i < entries@.len() && (#[trigger] entries@[i]) is Some && entries@[i].unwrap().0@
                    == name;
            assert(entries@[i] is Some);
        }
    }
    r
}

/// The key held by the first of Syncthing's config files (given by their
/// contents, in the order they are tried) that holds one, with that file's
/// position.
pub fn from_syncthing_config(xmls: &Vec<String>) -> (r: Option<(String, usize)>)
    ensures
        match r {
            Some((key, i)) => first_config_with_key(xmls@) == Some(i as int) && api_key_in(
                xmls@[i as int]@,
            ) == Some(key@),
            None => first_config_with_key(xmls@) is None,
        },
{
    let mut i: usize = 0;
    while i < xmls.len()
        invariant
            i <= xmls.len(),
            forall|j: int| 0 <= j < i ==> api_key_in(#[trigger] xmls@[j]@) is None,
        decreases xmls.len() - i,
    {
        match extract_api_key(xmls[i].as_str()) {
            Some(key) => {
                proof {
                    let k = choose|k: int|
                        0 <= k < xmls@.len() && api_key_in(#[trigger] xmls@[k]@) is Some
                            && forall|j: int| 0 <= j < k ==> api_key_in(#[trigger] xmls@[j]@) is None;
                    assert(api_key_in(xmls@[i as int]@) is Some);
                    if k < i {
                        assert(api_key_in(xmls@[k]@) is None);
                    } else if k > i {
                        assert(api_key_in(xmls@[i as int]@) is None);
                    }
                }
                return Some((String::from_str(key), i));
            },
            None => {},
        }
        i = i + 1;
    }
    None
}

} // verus!
