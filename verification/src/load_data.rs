use std::time::Duration;
use vstd::prelude::*;
use vstd::string::StringExecFns;

verus! {

broadcast use vstd::string::group_string_axioms;

/// One entry of a dataset manifest: when an image was taken and where its
/// file lies.
pub struct EurocData {
    pub timestamp: Duration,
    pub img_name: String,
}

/// The ways in which reading a manifest can fail.
#[derive(Clone, Copy, Debug, PartialEq, Eq, Structural)]
pub enum LoadError {
    /// The text is not well-formed comma-separated data.
    Malformed,
    /// A record has fewer than two fields.
    MissingField,
}

/// The error with which the reader of comma-separated data refuses a text.
#[verifier::external_type_specification]
#[verifier::external_body]
pub struct ExCsvError(csv::Error);

/// The records that the reader of comma-separated data finds in a text, each
/// as the list of its fields, without the header line; `None` if the reader
/// refuses the text.
pub uninterp spec fn csv_records(content: Seq<u8>) -> Option<Seq<Seq<Seq<char>>>>;

/// The span of time of that many nanoseconds.
pub uninterp spec fn duration_of_nanos(nanos: u64) -> Duration;

/// The fields of each record as sequences of characters.
pub open spec fn rows_view(rows: Seq<Vec<String>>) -> Seq<Seq<Seq<char>>> {
    rows.map_values(|row: Vec<String>| row@.map_values(|field: String| field@))
}

/// Reads all records of a text of comma-separated data whose first line is
/// a header. Calls `csv::ReaderBuilder::from_reader` with headers switched
/// on and `csv::Reader::records` on the outcome. The contract claims only
/// that the outcome is a function of the text: the records that the reader
/// yields, or its refusal at the first record that it rejects.
#[verifier::external_body]
fn read_records(content: &[u8]) -> (r: Result<Vec<Vec<String>>, csv::Error>)
    ensures
        match r {
            Ok(rows) => csv_records(content@) == Some(rows_view(rows@)),
            Err(_) => csv_records(content@).is_none(),
        },
{
    let mut reader = csv::ReaderBuilder::new().has_headers(true).from_reader(content);
    let mut rows: Vec<Vec<String>> = Vec::new();
    for record in reader.records() {
        rows.push(record?.iter().map(|field| field.to_string()).collect());
    }
    Ok(rows)
}

/// Calls `Duration::from_nanos`. The contract claims only that the span is
/// a function of the number.
#[verifier::external_body]
fn duration_from_nanos(nanos: u64) -> (d: Duration)
    ensures
        d == duration_of_nanos(nanos),
{
    Duration::from_nanos(nanos)
}

/// The code point of a character.
pub open spec fn code_of(c: char) -> u32 {
    #[verifier::truncate]
    (c as u32)
}

/// Whether a character is one of the digits 0 to 9.
pub open spec fn is_digit(c: char) -> bool {
    48 <= code_of(c) <= 57
}

/// The number that a run of decimal digits writes.
pub open spec fn decimal(digits: Seq<char>) -> nat
    decreases digits.len(),
{
    if digits.len() == 0 {
        0
    } else {
        decimal(digits.drop_last()) * 10 + (code_of(digits.last()) - 48) as nat
    }
}

/// The text without the plus sign that may stand at its front.
pub open spec fn unsigned_part(text: Seq<char>) -> Seq<char> {
    if text.len() > 0 && text[0] == '+' {
        text.drop_first()
    } else {
        text
    }
}

/// The number that a text writes: an optional plus sign, then one or more
/// decimal digits and nothing else, with a value that fits 64 bits.
pub open spec fn spec_parse_u64(text: Seq<char>) -> Option<u64> {
    let digits = unsigned_part(text);
    if digits.len() > 0 && (forall|i: int| 0 <= i < digits.len() ==> is_digit(#[trigger] digits[i]))
        && decimal(digits) <= u64::MAX {
        Some(decimal(digits) as u64)
    } else {
        None
    }
}

/// One more digit multiplies the number by ten and adds the digit.
pub proof fn lemma_decimal_push(digits: Seq<char>, c: char)
    ensures
        decimal(digits.push(c)) == decimal(digits) * 10 + (code_of(c) - 48) as nat,
{
    assert(digits.push(c).drop_last() =~= digits);
}

/// The number of a run of digits is no less than the number of any of its
/// beginnings.
pub proof fn lemma_decimal_prefix(digits: Seq<char>, k: int)
    requires
        0 <= k <= digits.len(),
        forall|i: int| 0 <= i < digits.len() ==> is_digit(#[trigger] digits[i]),
    ensures
        decimal(digits.take(k)) <= decimal(digits),
    decreases digits.len() - k,
{
    if k == digits.len() {
        assert(digits.take(k) =~= digits);
    } else {
        lemma_decimal_prefix(digits, k + 1);
        assert(digits.take(k + 1) =~= digits.take(k).push(digits[k]));
        lemma_decimal_push(digits.take(k), digits[k]);
        assert(is_digit(digits[k]));
    }
}

/// Reads an unsigned decimal number of 64 bits, as the standard library
/// parses one.
pub fn parse_u64(text: &str) -> (r: Option<u64>)
    ensures
        r == spec_parse_u64(text@),
{
    let ghost off: int = if text@.len() > 0 && text@[0] == '+' {
        1
    } else {
        0
    };
    let ghost digits = unsigned_part(text@);
    let mut value: u64 = 0;
    let mut at_start: bool = true;
    let mut any: bool = false;
    for c in it: text.chars()
        invariant
            it.seq() == text@,
            digits == unsigned_part(text@),
            off == text@.len() - digits.len(),
            at_start == (it.index() == 0),
            any == (it.index() > off),
            it.index() > 0 ==> it.index() >= off,
            any ==> value == decimal(digits.take(it.index() - off)),
            !any ==> value == 0,
            forall|i: int| 0 <= i < it.index() - off ==> is_digit(#[trigger] digits[i]),
    {
        let ghost i = it.index();
        let first: bool = at_start;
        at_start = false;
        if first && c == '+' {
            assert(off == 1);
        } else {
            assert(c == digits[i - off]);
            let code: u32 = #[verifier::truncate]
            (c as u32);
            if code < 48 || code > 57 {
                assert(!is_digit(digits[i - off]));
                return None;
            }
            let d: u64 = (code - 48) as u64;
            proof {
                assert(digits.take(i - off + 1) =~= digits.take(i - off).push(c));
                lemma_decimal_push(digits.take(i - off), c);
                if !any {
                    assert(digits.take(i - off) =~= Seq::<char>::empty());
                }
            }
            if value > (u64::MAX - d) / 10 {
                proof {
                    assert(decimal(digits.take(i - off + 1)) > u64::MAX);
                    if forall|k: int| 0 <= k < digits.len() ==> is_digit(#[trigger] digits[k]) {
                        lemma_decimal_prefix(digits, i - off + 1);
                    }
                }
                return None;
            }
            value = value * 10 + d;
            any = true;
        }
    }
    proof {
        assert(digits.take(digits.len() as int) =~= digits);
    }
    if any {
        Some(value)
    } else {
        None
    }
}

/// The name of the image file of a record: the directory, a slash, and the
/// second field.
pub open spec fn image_name(dir: Seq<char>, row: Seq<Seq<char>>) -> Seq<char> {
    dir + seq!['/'] + row[1]
}

/// Whether every record has the two fields that an entry is made of.
pub open spec fn rows_complete(rows: Seq<Seq<Seq<char>>>) -> bool {
    forall|i: int| 0 <= i < rows.len() ==> (#[trigger] rows[i]).len() >= 2
}

/// The entries that the first `n` records give, as pairs of the time in
/// nanoseconds and the image's name. A record whose first field is not a
/// number gives no entry.
pub open spec fn entries(dir: Seq<char>, rows: Seq<Seq<Seq<char>>>, n: int) -> Seq<(u64, Seq<char>)>
    decreases n,
{
    if n <= 0 || n > rows.len() {
        Seq::empty()
    } else {
        let before = entries(dir, rows, n - 1);
        match spec_parse_u64(rows[n - 1][0]) {
            Some(nanos) => before.push((nanos, image_name(dir, rows[n - 1]))),
            None => before,
        }
    }
}

/// Whether `data` holds the given entries, in their order.
pub open spec fn holds_entries(data: Seq<EurocData>, expected: Seq<(u64, Seq<char>)>) -> bool {
    &&& data.len() == expected.len()
    &&& forall|i: int|
        0 <= i < data.len() ==> (#[trigger] data[i]).timestamp == duration_of_nanos(expected[i].0)
            && data[i].img_name@ == expected[i].1
}

/// The directory of the images of a dataset.
pub open spec fn image_dir(path: Seq<char>) -> Seq<char> {
    path + "/data"@
}

/// Turns the records of a manifest into entries. The first field of a
/// record is the time in nanoseconds, the second the name of the image in
/// the directory `data` under `path`. A record whose time is not a number is
/// left out. Fails with `MissingField` if a record has fewer than two
/// fields.
pub fn records_to_data(path: &str, rows: &Vec<Vec<String>>) -> (r: Result<Vec<EurocData>, LoadError>)
    ensures
        match r {
            Ok(data) => {
                &&& rows_complete(rows_view(rows@))
                &&& holds_entries(
                    data@,
                    entries(image_dir(path@), rows_view(rows@), rows@.len() as int),
                )
            },
            Err(e) => e == LoadError::MissingField && !rows_complete(rows_view(rows@)),
        },
{
    let ghost dir = image_dir(path@);
    let ghost view = rows_view(rows@);
    let mut data: Vec<EurocData> = Vec::new();
    let mut i: usize = 0;
    while i < rows.len()
        invariant
            i <= rows.len(),
            dir == image_dir(path@),
            view == rows_view(rows@),
            view.len() == rows@.len(),
            forall|k: int| 0 <= k < i ==> (#[trigger] view[k]).len() >= 2,
            holds_entries(data@, entries(dir, view, i as int)),
        decreases rows.len() - i,
    {
        let row = &rows[i];
        assert(view[i as int] == row@.map_values(|field: String| field@));
        if row.len() < 2 {
            return Err(LoadError::MissingField);
        }
        assert(view[i as int][0] == row@[0]@);
        assert(view[i as int][1] == row@[1]@);
        match parse_u64(row[0].as_str()) {
            Some(nanos) => {
                let img_name = String::from_str(path).concat("/data").concat("/").concat(row[1].as_str());
                proof {
                    reveal_strlit("/");
                    assert(img_name@ =~= image_name(dir, view[i as int]));
                }
                let ghost before = data@;
                data.push(EurocData { timestamp: duration_from_nanos(nanos), img_name });
                proof {
                    let expected = entries(dir, view, i as int + 1);
                    assert forall|k: int| 0 <= k < data@.len() implies (#[trigger] data@[k]).timestamp
                        == duration_of_nanos(expected[k].0) && data@[k].img_name@ == expected[k].1 by {
                        if k < before.len() {
                            assert(data@[k] == before[k]);
                        }
                    }
                }
            },
            None => {},
        }
        i = i + 1;
    }
    Ok(data)
}

/// Reads the manifest of a dataset from the text of its file: a header
/// line, then one record for each image. `path` is the directory of the
/// dataset. Fails with `Malformed` if the text is not well-formed
/// comma-separated data, and with `MissingField` if a record has fewer than
/// two fields.
pub fn load_euroc_data(path: &str, content: &[u8]) -> (r: Result<Vec<EurocData>, LoadError>)
    ensures
        match csv_records(content@) {
            None => r == Err::<Vec<EurocData>, LoadError>(LoadError::Malformed),
            Some(rows) => match r {
                Ok(data) => {
                    &&& rows_complete(rows)
                    &&& holds_entries(data@, entries(image_dir(path@), rows, rows.len() as int))
                },
                Err(e) => e == LoadError::MissingField && !rows_complete(rows),
            },
        },
{
    match read_records(content) {
        Ok(rows) => records_to_data(path, &rows),
        Err(_) => Err(LoadError::Malformed),
    }
}

} // verus!
