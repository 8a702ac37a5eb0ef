//! System services: the rows of a service listing in JSON, and the words of
//! the listings that the service managers print.

use vstd::prelude::*;
use vstd::string::StringExecFns;
use crate::text::{
    chars_of, leading_space, lines, pieces_of, split_lines, split_words, string_of, trim_start,
    words,
};

verus! {

/// `serde_json::Value`: a JSON value. Nothing of what it holds is known but
/// through the names below.
#[verifier::external_type_specification]
#[verifier::external_body]
pub struct ExJsonValue(serde_json::Value);

/// `serde_json::Error`: why a text could not be read as JSON.
#[verifier::external_type_specification]
#[verifier::external_body]
pub struct ExJsonError(serde_json::Error);

/// The values that a text holds when it is read as a JSON array; nothing
/// where it is no JSON array.
pub uninterp spec fn json_array(text: Seq<char>) -> Option<Seq<serde_json::Value>>;

/// The member of a JSON value under a key; the null value where it has
/// none.
pub uninterp spec fn json_member(value: serde_json::Value, key: Seq<char>) -> serde_json::Value;

/// The number that a JSON value holds, where it is an integer that fits in
/// 64 bits without a sign.
pub uninterp spec fn json_u64(value: serde_json::Value) -> Option<u64>;

/// The text that a JSON value holds, where it is a string.
pub uninterp spec fn json_str(value: serde_json::Value) -> Option<Seq<char>>;

/// `serde_json::from_str`, reading a list of values: the values of the array
/// that the text holds, or an error where the text is no JSON array. The
/// result depends on the text alone.
#[verifier::external_body]
fn parse_json_array(text: &str) -> (parsed: Result<Vec<serde_json::Value>, serde_json::Error>)
    ensures
        parsed is Ok ==> json_array(text@) == Some(parsed->Ok_0@),
        parsed is Err ==> json_array(text@) is None,
{
    serde_json::from_str(text)
}

/// Indexing a `serde_json::Value` by a string: a reference to the member
/// under the key. The call does not fail: a value without such a member
/// gives the null value.
#[verifier::external_body]
fn member<'a>(value: &'a serde_json::Value, key: &str) -> (found: &'a serde_json::Value)
    ensures
        *found == json_member(*value, key@),
{
    &value[key]
}

/// `serde_json::Value::as_u64`: the number that the value holds, where it
/// is an integer that fits in 64 bits without a sign. The result depends on
/// the value alone.
pub assume_specification[ serde_json::Value::as_u64 ](value: &serde_json::Value) -> (number:
    Option<u64>)
    ensures
        number == json_u64(*value),
;

/// `serde_json::Value::as_str`: the text that the value holds, where it is a
/// string. The result depends on the value alone.
pub assume_specification<'a>[ serde_json::Value::as_str ](value: &'a serde_json::Value) -> (text:
    Option<&'a str>)
    ensures
        text is Some == json_str(*value) is Some,
        text is Some ==> text->0@ == json_str(*value)->0,
;

/// The name and the status reported for a service that shows none.
pub open spec fn unknown() -> Seq<char> {
    "Unknown"@
}

/// A service as a caller sees it.
#[derive(Debug, PartialEq, Eq)]
pub struct ServiceInfo {
    /// The process that runs the service.
    pub process_id: u32,
    pub name: String,
    pub status: String,
}

/// The services handed to a caller, with their number.
#[derive(Debug, PartialEq, Eq)]
pub struct ServiceInfoArray {
    pub data: Vec<ServiceInfo>,
    pub len: usize,
}

/// What a `ServiceInfo` holds.
pub ghost struct ServiceInfoView {
    pub process_id: u32,
    pub name: Seq<char>,
    pub status: Seq<char>,
}

impl View for ServiceInfo {
    type V = ServiceInfoView;

    open spec fn view(&self) -> ServiceInfoView {
        ServiceInfoView { process_id: self.process_id, name: self.name@, status: self.status@ }
    }
}

/// What a list of services holds.
pub open spec fn services_of(list: Seq<ServiceInfo>) -> Seq<ServiceInfoView> {
    list.map_values(|info: ServiceInfo| info@)
}

/// What an optional text holds.
pub open spec fn text_of(text: Option<&str>) -> Option<Seq<char>> {
    match text {
        Some(text) => Some(text@),
        None => None,
    }
}

/// A listing as a JSON array: a text that starts with an opening bracket
/// after white space or none stays as it is, any other text is put between
/// brackets.
pub open spec fn framed(output: Seq<char>) -> Seq<char> {
    let start = trim_start(output);
    if start.len() > 0 && start[0] == '[' {
        output
    } else {
        "["@ + output + "]"@
    }
}

/// The service made of the three members of a row: the low 32 bits of the
/// process number, or zero without one; the name and the status, or
/// `Unknown` without one.
pub open spec fn service_info(
    process_id: Option<u64>,
    name: Option<Seq<char>>,
    status: Option<Seq<char>>,
) -> ServiceInfoView {
    ServiceInfoView {
        process_id: match process_id {
            Some(number) => (number % 0x1_0000_0000) as u32,
            None => 0,
        },
        name: match name {
            Some(name) => name,
            None => unknown(),
        },
        status: match status {
            Some(status) => status,
            None => unknown(),
        },
    }
}

/// The service that a row of the listing stands for.
pub open spec fn service_of_row(row: serde_json::Value) -> ServiceInfoView {
    service_info(
        json_u64(json_member(row, "ProcessId"@)),
        json_str(json_member(row, "Name"@)),
        json_str(json_member(row, "Status"@)),
    )
}

/// The services of a listing: one for each row of the framed listing, and
/// none for a listing that is missing or is no JSON.
pub open spec fn services(output: Option<Seq<char>>) -> Seq<ServiceInfoView> {
    match output {
        Some(output) => match json_array(framed(output)) {
            Some(rows) => rows.map_values(|row: serde_json::Value| service_of_row(row)),
            None => Seq::empty(),
        },
        None => Seq::empty(),
    }
}

/// Makes a JSON array of a listing that may hold a single row.
pub fn frame_json_array(output: &str) -> (json: String)
    ensures
        json@ == framed(output@),
{
    let chars = chars_of(output);
    let start = leading_space(chars.as_slice());
    proof {
        if start < chars@.len() {
            assert(chars@.skip(start as int)[0] == chars@[start as int]);
        }
    }
    if start < chars.len() && chars[start] == '[' {
        output.to_owned()
    } else {
        let mut json = "[".to_owned();
        json.append(output);
        json.append("]");
        json
    }
}

/// Makes a service of the three members of a row.
pub fn service_from_members(process_id: Option<u64>, name: Option<&str>, status: Option<&str>) -> (info:
    ServiceInfo)
    ensures
        info@ == service_info(process_id, text_of(name), text_of(status)),
{
    ServiceInfo {
        process_id: match process_id {
            Some(number) => (number % 0x1_0000_0000) as u32,
            None => 0,
        },
        name: match name {
            Some(name) => name.to_owned(),
            None => "Unknown".to_owned(),
        },
        status: match status {
            Some(status) => status.to_owned(),
            None => "Unknown".to_owned(),
        },
    }
}

/// The services as a caller receives them, from the JSON listing that the
/// service manager printed, or from nothing where it printed none. Each row
/// gives one service, in the order of the listing; a listing that is no JSON
/// gives no services.
pub fn get_services_info_array(output: Option<&str>) -> (array: ServiceInfoArray)
    ensures
        array.len == array.data@.len(),
        services_of(array.data@) == services(text_of(output)),
{
    let mut data: Vec<ServiceInfo> = Vec::new();
    proof {
        assert(services_of(data@) =~= Seq::empty());
    }
    if let Some(output) = output {
        let json = frame_json_array(output);
        if let Ok(rows) = parse_json_array(json.as_str()) {
            let ghost all = rows@.map_values(|row: serde_json::Value| service_of_row(row));
            let mut i: usize = 0;
            while i < rows.len()
                invariant
                    i <= rows@.len(),
                    all == rows@.map_values(|row: serde_json::Value| service_of_row(row)),
                    services_of(data@) == all.subrange(0, i as int),
                decreases rows@.len() - i,
            {
                let row = &rows[i];
                let info = service_from_members(
                    member(row, "ProcessId").as_u64(),
                    member(row, "Name").as_str(),
                    member(row, "Status").as_str(),
                );
                let ghost shorter = services_of(data@);
                data.push(info);
                proof {
                    assert(all[i as int] == service_of_row(rows@[i as int]));
                    assert(services_of(data@) =~= shorter.push(info@));
                    assert(shorter.push(info@) =~= all.subrange(0, i + 1));
                }
                i = i + 1;
            }
            proof {
                assert(all.subrange(0, all.len() as int) =~= all);
            }
        }
    }
    let len = data.len();
    ServiceInfoArray { data, len }
}

/// Two words of one line of a listing.
#[derive(Debug, PartialEq, Eq)]
pub struct WordPair {
    pub first: String,
    pub second: String,
}

/// What a `WordPair` holds.
pub ghost struct WordPairView {
    pub first: Seq<char>,
    pub second: Seq<char>,
}

impl View for WordPair {
    type V = WordPairView;

    open spec fn view(&self) -> WordPairView {
        WordPairView { first: self.first@, second: self.second@ }
    }
}

/// What a list of word pairs holds.
pub open spec fn pairs_of(list: Seq<WordPair>) -> Seq<WordPairView> {
    list.map_values(|pair: WordPair| pair@)
}

/// The words at the indices `first` and `second` of a line that has both.
pub open spec fn word_pair(line: Seq<char>, first: int, second: int) -> Option<WordPairView> {
    let list = words(line);
    if 0 <= first < list.len() && 0 <= second < list.len() {
        Some(WordPairView { first: list[first], second: list[second] })
    } else {
        None
    }
}

/// The word pairs of the lines of a list, in the order of the lines.
pub open spec fn word_pairs(list: Seq<Seq<char>>, first: int, second: int) -> Seq<WordPairView>
    decreases list.len(),
{
    if list.len() == 0 {
        Seq::empty()
    } else {
        let before = word_pairs(list.drop_last(), first, second);
        match word_pair(list.last(), first, second) {
            Some(pair) => before.push(pair),
            None => before,
        }
    }
}

/// The word pairs of a listing after its heading lines. A listing with
/// fewer lines than headings holds none.
pub open spec fn listed(output: Seq<char>, headings: int, first: int, second: int) -> Seq<
    WordPairView,
> {
    let list = lines(output);
    if 0 <= headings <= list.len() {
        word_pairs(list.skip(headings), first, second)
    } else {
        Seq::empty()
    }
}

/// Reads two columns out of a listing in columns: of every line after the
/// heading lines that has both, the words at the indices `first` and
/// `second`.
pub fn read_columns(output: &str, headings: usize, first: usize, second: usize) -> (pairs: Vec<
    WordPair,
>)
    ensures
        pairs_of(pairs@) == listed(output@, headings as int, first as int, second as int),
{
    let chars = chars_of(output);
    let list = split_lines(chars.as_slice());
    let mut pairs: Vec<WordPair> = Vec::new();
    proof {
        assert(pairs_of(pairs@) =~= Seq::empty());
    }
    if headings > list.len() {
        return pairs;
    }
    let ghost rest = pieces_of(list@).skip(headings as int);
    let mut i: usize = headings;
    proof {
        assert(rest.take(0) =~= Seq::empty());
    }
    while i < list.len()
        invariant
            headings <= i <= list@.len(),
            rest == pieces_of(list@).skip(headings as int),
            pairs_of(pairs@) == word_pairs(rest.take(i - headings), first as int, second as int),
        decreases list@.len() - i,
    {
        proof {
            let longer = rest.take(i - headings + 1);
            assert(longer.drop_last() =~= rest.take(i - headings));
            assert(longer.last() == list@[i as int]@);
        }
        let parts = split_words(list[i].as_slice());
        if first < parts.len() && second < parts.len() {
            proof {
                assert(pieces_of(parts@)[first as int] == parts@[first as int]@);
                assert(pieces_of(parts@)[second as int] == parts@[second as int]@);
            }
            let pair = WordPair {
                first: string_of(parts[first].as_slice()),
                second: string_of(parts[second].as_slice()),
            };
            let ghost shorter = pairs_of(pairs@);
            pairs.push(pair);
            proof {
                assert(pairs_of(pairs@) =~= shorter.push(pair@));
            }
        }
        i = i + 1;
    }
    proof {
        assert(rest.take(rest.len() as int) =~= rest);
    }
    pairs
}

/// Reads the units out of a listing of the units of a service manager that
/// has no heading: of every line of more than three words, the name of the
/// unit, which is the first word, and its state, which is the fourth.
pub fn list_units(output: &str) -> (units: Vec<WordPair>)
    ensures
        pairs_of(units@) == listed(output@, 0, 0, 3),
{
    read_columns(output, 0, 0, 3)
}

/// Reads the jobs out of a listing of the jobs of a service manager whose
/// first line is a heading: of every other line of more than two words, the
/// process number, which is the first word, and the label of the job, which
/// is the third.
pub fn list_jobs(output: &str) -> (jobs: Vec<WordPair>)
    ensures
        pairs_of(jobs@) == listed(output@, 1, 0, 2),
{
    read_columns(output, 1, 0, 2)
}

} // verus!
