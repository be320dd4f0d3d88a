//! Text maps and strings as JSON.
use crate::text::{concat5, decimal, same, texts, to_decimal};
use crate::textmap::{ascending, paired, TextMap};
use std::collections::BTreeMap;
use vstd::prelude::*;
use vstd::utf8::encode_utf8;

verus! {

/// The map of strings that a JSON object stands for, or why a text is no such
/// object.
pub uninterp spec fn json_map(text: Seq<char>) -> Result<Map<Seq<char>, Seq<char>>, Seq<char>>;

/// The indented JSON object with the given keys and values.
pub uninterp spec fn json_object(keys: Seq<Seq<char>>, values: Seq<Seq<char>>) -> Seq<char>;

/// The fields of the JSON object that bytes hold, each as the JSON text of its
/// value, or why they hold no object.
pub uninterp spec fn json_fields(bytes: Seq<u8>) -> Result<Map<Seq<char>, Seq<char>>, Seq<char>>;

/// The number and the map of strings in the JSON array that bytes hold, if they
/// hold such a pair.
pub uninterp spec fn json_pair(bytes: Seq<u8>) -> Option<(u32, Map<Seq<char>, Seq<char>>)>;

/// The number that a JSON text stands for, or why it is none that fits.
pub uninterp spec fn json_number(text: Seq<char>) -> Result<u32, Seq<char>>;

/// The text that a JSON string stands for, if the bytes are one.
pub uninterp spec fn json_string(bytes: Seq<u8>) -> Option<Seq<char>>;

/// The JSON object with the given keys and values, without white space.
pub uninterp spec fn json_compact(keys: Seq<Seq<char>>, values: Seq<Seq<char>>) -> Seq<char>;

/// The JSON string literal for a text.
pub uninterp spec fn json_literal(text: Seq<char>) -> Seq<char>;

/// Reads a JSON object of strings.
///
/// Calls serde_json's `from_str` for a `BTreeMap<String, String>`, whose entries
/// come out sorted by key and each key once. What the text has to look like and
/// how a failure is worded is left to the names.
#[verifier::external_body]
fn object_from_json(text: &str) -> (r: Result<(Vec<String>, Vec<String>), String>)
    ensures
        match r {
            Ok(columns) => {
                &&& columns.0@.len() == columns.1@.len()
                &&& ascending(texts(columns.0@))
                &&& json_map(text@) is Ok
                &&& json_map(text@)->Ok_0 == paired(texts(columns.0@), texts(columns.1@))
            },
            Err(message) => json_map(text@) is Err && json_map(text@)->Err_0 == message@,
        },
{
    match serde_json::from_str::<BTreeMap<String, String>>(text) {
        Ok(entries) => Ok(entries.into_iter().unzip()),
        Err(error) => Err(error.to_string()),
    }
}

/// Writes a JSON object of strings, one entry to a line.
///
/// Calls serde_json's `to_string_pretty` on a `BTreeMap<String, String>`, which
/// cannot fail for string keys and values; `from_str` reads the same map back.
#[verifier::external_body]
fn object_to_json(keys: Vec<String>, values: Vec<String>) -> (r: String)
    requires
        keys@.len() == values@.len(),
        ascending(texts(keys@)),
    ensures
        r@ == json_object(texts(keys@), texts(values@)),
        json_map(r@) is Ok && json_map(r@)->Ok_0 == paired(texts(keys@), texts(values@)),
{
    let entries: BTreeMap<String, String> = keys.into_iter().zip(values).collect();
    serde_json::to_string_pretty(&entries).expect("a map of strings has a JSON form")
}

/// Reads the fields of a JSON object.
///
/// Calls serde_json's `from_slice` for a map of `Value`s, whose entries come out
/// sorted by key and each key once, and hands each value out as its JSON text. What
/// the bytes have to look like and how a failure is worded is left to the name.
#[verifier::external_body]
fn fields_from_json(bytes: &[u8]) -> (r: Result<(Vec<String>, Vec<String>), String>)
    ensures
        match r {
            Ok(columns) => {
                &&& columns.0@.len() == columns.1@.len()
                &&& ascending(texts(columns.0@))
                &&& json_fields(bytes@) is Ok
                &&& json_fields(bytes@)->Ok_0 == paired(texts(columns.0@), texts(columns.1@))
            },
            Err(message) => json_fields(bytes@) is Err && json_fields(bytes@)->Err_0 == message@,
        },
{
    match serde_json::from_slice::<BTreeMap<String, serde_json::Value>>(bytes) {
        Ok(fields) => Ok(fields.into_iter().map(|(key, value)| (key, value.to_string())).unzip()),
        Err(error) => Err(error.to_string()),
    }
}

/// Reads a JSON array of a number and an object of strings.
///
/// Calls serde_json's `from_slice` for a pair of a `u32` and a
/// `BTreeMap<String, String>`, whose entries come out sorted by key and each key
/// once. What the bytes have to look like is left to the name.
#[verifier::external_body]
fn pair_from_json(bytes: &[u8]) -> (r: Option<(u32, Vec<String>, Vec<String>)>)
    ensures
        match r {
            Some(pair) => {
                &&& pair.1@.len() == pair.2@.len()
                &&& ascending(texts(pair.1@))
                &&& json_pair(bytes@) is Some
                &&& json_pair(bytes@)->0 == (pair.0, paired(texts(pair.1@), texts(pair.2@)))
            },
            None => json_pair(bytes@) is None,
        },
{
    let (number, map): (u32, BTreeMap<String, String>) = serde_json::from_slice(bytes).ok()?;
    let (keys, values) = map.into_iter().unzip();
    Some((number, keys, values))
}

/// Reads a JSON number.
///
/// Calls serde_json's `from_str` for a `u32`. What it reads and how a failure is
/// worded is left to the name.
#[verifier::external_body]
fn number_from_json(text: &str) -> (r: Result<u32, String>)
    ensures
        match r {
            Ok(number) => json_number(text@) is Ok && json_number(text@)->Ok_0 == number,
            Err(message) => json_number(text@) is Err && json_number(text@)->Err_0 == message@,
        },
{
    serde_json::from_str(text).map_err(|error| error.to_string())
}

/// Reads a JSON string.
///
/// Calls serde_json's `from_slice` for a `String`. What it reads is left to the
/// name.
#[verifier::external_body]
fn string_from_json(bytes: &[u8]) -> (r: Option<String>)
    ensures
        match json_string(bytes@) {
            Some(text) => r is Some && r->0@ == text,
            None => r is None,
        },
{
    serde_json::from_slice(bytes).ok()
}

/// Writes a JSON object of strings without white space.
///
/// Calls serde_json's `to_string` on a `BTreeMap<String, String>`, which cannot
/// fail for string keys and values; `from_str` reads the same map back, and so do
/// the readers of a record when the object is its entries: the record has its two
/// fields once each, since the keys of the object stand one level deeper.
#[verifier::external_body]
fn object_to_compact_json(keys: Vec<String>, values: Vec<String>) -> (r: String)
    requires
        keys@.len() == values@.len(),
        ascending(texts(keys@)),
    ensures
        r@ == json_compact(texts(keys@), texts(values@)),
        json_map(r@) is Ok && json_map(r@)->Ok_0 == paired(texts(keys@), texts(values@)),
        forall|version: u32| record_reads(
            #[trigger] record_text(version, r@),
            version,
            paired(texts(keys@), texts(values@)),
        ),
{
    let entries: BTreeMap<String, String> = keys.into_iter().zip(values).collect();
    serde_json::to_string(&entries).expect("a map of strings has a JSON form")
}

/// How far the names of the fields of a JSON object have been found.
pub ghost struct NameScan {
    /// How many objects and arrays are open.
    pub depth: int,
    /// Inside a string.
    pub quoted: bool,
    /// The next character of the string is escaped.
    pub escaped: bool,
    /// The next string of the object is a name.
    pub naming: bool,
    /// Where the string started.
    pub start: int,
    /// The names that were found, as JSON strings.
    pub names: Seq<Seq<u8>>,
}

/// The scan after the byte at `i`.
pub open spec fn name_step(bytes: Seq<u8>, scan: NameScan, i: int) -> NameScan {
    let byte = bytes[i];
    if scan.quoted {
        if scan.escaped {
            NameScan { escaped: false, ..scan }
        } else if byte == 0x5C {  // backslash
            NameScan { escaped: true, ..scan }
        } else if byte != 0x22 {
            scan
        } else if scan.naming && scan.depth == 1 {  // closing quote
            NameScan {
                quoted: false,
                naming: false,
                names: scan.names.push(bytes.subrange(scan.start, i + 1)),
                ..scan
            }
        } else {
            NameScan { quoted: false, ..scan }
        }
    } else if byte == 0x22 {  // opening quote
        NameScan { quoted: true, start: i, ..scan }
    } else if byte == 0x7B || byte == 0x5B {  // { [
        NameScan { depth: scan.depth + 1, naming: scan.depth == 0 && byte == 0x7B, ..scan }
    } else if byte == 0x7D || byte == 0x5D {  // } ]
        NameScan { depth: scan.depth - 1, ..scan }
    } else if byte == 0x2C && scan.depth == 1 {  // ,
        NameScan { naming: true, ..scan }
    } else {
        scan
    }
}

/// The scan after the first `n` bytes.
pub open spec fn names_scanned(bytes: Seq<u8>, n: int) -> NameScan
    decreases n,
{
    if n <= 0 {
        NameScan {
            depth: 0,
            quoted: false,
            escaped: false,
            naming: false,
            start: 0,
            names: Seq::empty(),
        }
    } else {
        name_step(bytes, names_scanned(bytes, n - 1), n - 1)
    }
}

/// The names of the fields of the JSON object that bytes hold, as JSON strings, in
/// order.
pub open spec fn field_names(bytes: Seq<u8>) -> Seq<Seq<u8>> {
    names_scanned(bytes, bytes.len() as int).names
}

/// Whether two of some JSON strings stand for a name.
pub open spec fn twice(names: Seq<Seq<u8>>, name: Seq<char>) -> bool {
    exists|i: int, j: int|
        0 <= i < j < names.len() && json_string(#[trigger] names[i]) == Some(name) && json_string(
            #[trigger] names[j],
        ) == Some(name)
}

/// Whether a field of the JSON object that bytes hold occurs more than once.
pub open spec fn repeats(bytes: Seq<u8>, name: Seq<char>) -> bool {
    twice(field_names(bytes), name)
}

/// Runs of bytes.
pub open spec fn byte_runs(runs: Seq<Vec<u8>>) -> Seq<Seq<u8>> {
    Seq::new(runs.len(), |i: int| runs[i]@)
}

/// The names of the fields of a JSON object, as JSON strings, in order.
fn scan_names(bytes: &[u8]) -> (r: Vec<Vec<u8>>)
    ensures
        byte_runs(r@) == field_names(bytes@),
{
    let mut depth: i128 = 0;
    let mut quoted = false;
    let mut escaped = false;
    let mut naming = false;
    let mut start: usize = 0;
    let mut names: Vec<Vec<u8>> = Vec::new();
    let mut i: usize = 0;
    assert(byte_runs(names@) =~= Seq::<Seq<u8>>::empty());
    while i < bytes.len()
        invariant
            i <= bytes@.len(),
            -(i as int) <= depth <= i,
            start <= i,
            quoted ==> start < i,
            names_scanned(bytes@, i as int) == (NameScan {
                depth: depth as int,
                quoted,
                escaped,
                naming,
                start: start as int,
                names: byte_runs(names@),
            }),
        decreases bytes.len() - i,
    {
        let byte: u8 = bytes[i];
        if quoted {
            if escaped {
                escaped = false;
            } else if byte == 0x5C {
                escaped = true;
            } else if byte == 0x22 {
                quoted = false;
                if naming && depth == 1 {
                    naming = false;
                    let name = vstd::slice::slice_to_vec(
                        vstd::slice::slice_subrange(bytes, start, i + 1),
                    );
                    let ghost before = names@;
                    names.push(name);
                    assert(byte_runs(names@) =~= byte_runs(before).push(
                        bytes@.subrange(start as int, i + 1),
                    ));
                }
            }
        } else if byte == 0x22 {
            quoted = true;
            start = i;
        } else if byte == 0x7B || byte == 0x5B {
            naming = depth == 0 && byte == 0x7B;
            depth = depth + 1;
        } else if byte == 0x7D || byte == 0x5D {
            depth = depth - 1;
        } else if byte == 0x2C && depth == 1 {
            naming = true;
        }
        i = i + 1;
    }
    names
}

/// Whether two of some JSON strings stand for a name.
fn stands_twice(names: &Vec<Vec<u8>>, name: &str) -> (r: bool)
    ensures
        r == twice(byte_runs(names@), name@),
{
    let ghost runs = byte_runs(names@);
    let mut found = false;
    let ghost mut first: int = 0;
    let mut i: usize = 0;
    while i < names.len()
        invariant
            i <= names@.len(),
            runs == byte_runs(names@),
            found ==> 0 <= first < i && json_string(runs[first]) == Some(name@),
            forall|k: int|
                0 <= k < i && json_string(#[trigger] runs[k]) == Some(name@) ==> found && k == first,
        decreases names.len() - i,
    {
        let here = match string_from_json(names[i].as_slice()) {
            Some(text) => same(text.as_str(), name),
            None => false,
        };
        assert(runs[i as int] == names@[i as int]@);
        if here && found {
            assert(json_string(runs[first]) == Some(name@));
            assert(json_string(runs[i as int]) == Some(name@));
            return true;
        }
        if here {
            found = true;
            proof {
                first = i as int;
            }
        }
        i = i + 1;
    }
    false
}

/// The JSON text of a record: a version and an object of entries.
pub open spec fn record_text(version: u32, object: Seq<char>) -> Seq<char> {
    "{\"version\":"@ + decimal(version as nat) + ",\"entries\":"@ + object + "}"@
}

/// The bytes of a record with the given keys and values.
pub open spec fn record_bytes(version: u32, keys: Seq<Seq<char>>, values: Seq<Seq<char>>) -> Seq<u8> {
    encode_utf8(record_text(version, json_compact(keys, values)))
}

/// Whether a text is read as an object with the given version and entries.
pub open spec fn record_reads(
    text: Seq<char>,
    version: u32,
    entries: Map<Seq<char>, Seq<char>>,
) -> bool {
    &&& json_fields(encode_utf8(text)) is Ok
    &&& !repeats(encode_utf8(text), "version"@)
    &&& !repeats(encode_utf8(text), "entries"@)
    &&& ({
        let fields = json_fields(encode_utf8(text))->Ok_0;
        &&& fields.contains_key("version"@)
        &&& json_number(fields["version"@]) is Ok
        &&& json_number(fields["version"@])->Ok_0 == version
        &&& fields.contains_key("entries"@)
        &&& json_map(fields["entries"@]) is Ok
        &&& json_map(fields["entries"@])->Ok_0 == entries
    })
}

/// The version and the entries in the fields of an object, or what is wrong with
/// them.
pub open spec fn record_of(fields: Map<Seq<char>, Seq<char>>) -> Result<
    (u32, Map<Seq<char>, Seq<char>>),
    Seq<char>,
> {
    if !fields.contains_key("version"@) {
        Err("missing field `version`"@)
    } else if !fields.contains_key("entries"@) {
        Err("missing field `entries`"@)
    } else {
        match json_number(fields["version"@]) {
            Err(message) => Err(message),
            Ok(version) => match json_map(fields["entries"@]) {
                Err(message) => Err(message),
                Ok(entries) => Ok((version, entries)),
            },
        }
    }
}

/// The version and the entries of the record that bytes hold, as an object or as an
/// array of the two, or why they hold none.
pub open spec fn record_read(bytes: Seq<u8>) -> Result<
    (u32, Map<Seq<char>, Seq<char>>),
    Seq<char>,
> {
    match json_fields(bytes) {
        Ok(fields) => if repeats(bytes, "version"@) {
            Err("duplicate field `version`"@)
        } else if repeats(bytes, "entries"@) {
            Err("duplicate field `entries`"@)
        } else {
            record_of(fields)
        },
        Err(message) => match json_pair(bytes) {
            Some(pair) => Ok(pair),
            None => Err(message),
        },
    }
}

/// Picks the version and the entries out of the fields of an object.
pub fn pick_record(fields: &TextMap) -> (r: Result<(u32, TextMap), String>)
    requires
        fields.wf(),
    ensures
        match r {
            Ok(record) => {
                &&& record.1.wf()
                &&& record_of(fields@) is Ok
                &&& record_of(fields@)->Ok_0 == (record.0, record.1@)
            },
            Err(message) => record_of(fields@) is Err && record_of(fields@)->Err_0 == message@,
        },
{
    let version = match fields.get("version") {
        Some(text) => text,
        None => {
            return Err("missing field `version`".to_owned());
        },
    };
    let entries = match fields.get("entries") {
        Some(text) => text,
        None => {
            return Err("missing field `entries`".to_owned());
        },
    };
    match number_from_json(version) {
        Err(message) => Err(message),
        Ok(number) => match read_map(entries) {
            Err(message) => Err(message),
            Ok(map) => Ok((number, map)),
        },
    }
}

/// Reads a version and a map of texts from a record.
pub fn read_record(bytes: &[u8]) -> (r: Result<(u32, TextMap), String>)
    ensures
        match r {
            Ok(record) => {
                &&& record.1.wf()
                &&& record_read(bytes@) is Ok
                &&& record_read(bytes@)->Ok_0 == (record.0, record.1@)
            },
            Err(message) => record_read(bytes@) is Err && record_read(bytes@)->Err_0 == message@,
        },
{
    match fields_from_json(bytes) {
        Ok((keys, values)) => {
            let names = scan_names(bytes);
            if stands_twice(&names, "version") {
                return Err("duplicate field `version`".to_owned());
            }
            if stands_twice(&names, "entries") {
                return Err("duplicate field `entries`".to_owned());
            }
            pick_record(&TextMap::of(keys, values))
        },
        Err(message) => match pair_from_json(bytes) {
            Some((version, keys, values)) => Ok((version, TextMap::of(keys, values))),
            None => Err(message),
        },
    }
}

/// Writes a version and a map of texts as a record; [`read_record`] gives them
/// back.
pub fn write_record(version: u32, map: &TextMap) -> (r: Vec<u8>)
    requires
        map.wf(),
    ensures
        r@ == record_bytes(version, map.order(), map.column()),
        record_read(r@) is Ok,
        record_read(r@)->Ok_0 == (version, map@),
{
    let object = object_to_compact_json(map.keys(), map.values());
    let number = to_decimal(version as u64);
    let text = concat5("{\"version\":", number.as_str(), ",\"entries\":", object.as_str(), "}");
    vstd::slice::slice_to_vec(text.as_str().as_bytes())
}

/// Quotes a text as a JSON string.
///
/// Calls serde_json's `to_string` on a string, which cannot fail.
#[verifier::external_body]
pub(crate) fn quoted(text: &str) -> (r: String)
    ensures
        r@ == json_literal(text@),
{
    serde_json::to_string(text).expect("a string has a JSON form")
}

/// Reads a map of texts from a JSON object.
pub fn read_map(text: &str) -> (r: Result<TextMap, String>)
    ensures
        match r {
            Ok(map) => map.wf() && json_map(text@) == Ok::<Map<Seq<char>, Seq<char>>, Seq<char>>(
                map@,
            ),
            Err(message) => json_map(text@) == Err::<Map<Seq<char>, Seq<char>>, Seq<char>>(
                message@,
            ),
        },
{
    match object_from_json(text) {
        Ok((keys, values)) => Ok(TextMap::of(keys, values)),
        Err(message) => Err(message),
    }
}

/// Writes a map of texts as a JSON object; [`read_map`] gives the map back.
pub fn write_map(map: &TextMap) -> (r: String)
    requires
        map.wf(),
    ensures
        r@ == json_object(map.order(), map.column()),
        json_map(r@) == Ok::<Map<Seq<char>, Seq<char>>, Seq<char>>(map@),
{
    let keys = map.keys();
    let values = map.values();
    object_to_json(keys, values)
}

/// A record is an object with a version and its entries, written in this order without
/// white space.
pub proof fn records_are_written_as_objects(
    version: u32,
    keys: Seq<Seq<char>>,
    values: Seq<Seq<char>>,
)
    ensures
        record_bytes(version, keys, values) == encode_utf8(
            "{\"version\":"@ + decimal(version as nat) + ",\"entries\":"@ + json_compact(
                keys,
                values,
            ) + "}"@,
        ),
{
}

/// A record is read from its two fields, whatever others there are; one that is missing,
/// of another kind or there twice makes it unreadable.
pub proof fn records_are_read_from_their_fields(
    bytes: Seq<u8>,
    fields: Map<Seq<char>, Seq<char>>,
    version: u32,
    entries: Map<Seq<char>, Seq<char>>,
)
    requires
        json_fields(bytes) == Ok::<Map<Seq<char>, Seq<char>>, Seq<char>>(fields),
    ensures
        !repeats(bytes, "version"@) && !repeats(bytes, "entries"@) && fields.contains_key(
            "version"@,
        ) && fields.contains_key("entries"@) && json_number(fields["version"@]) == Ok::<
            u32,
            Seq<char>,
        >(version) && json_map(fields["entries"@]) == Ok::<
            Map<Seq<char>, Seq<char>>,
            Seq<char>,
        >(entries) ==> record_read(bytes) == Ok::<(u32, Map<Seq<char>, Seq<char>>), Seq<char>>(
            (version, entries),
        ),
        repeats(bytes, "version"@) || repeats(bytes, "entries"@) || !fields.contains_key(
            "version"@,
        ) || !fields.contains_key("entries"@) ==> record_read(bytes) is Err,
        record_read(bytes) is Ok ==> json_number(fields["version"@]) is Ok && json_map(
            fields["entries"@],
        ) is Ok,
{
}

/// The names of the fields of an object with two numbers are its two strings in front of
/// the colons.
pub proof fn names_stand_before_colons(a: u8, b: u8)
    requires
        a != 0x22,
        a != 0x5C,
        b != 0x22,
        b != 0x5C,
    ensures
        field_names(
            seq![0x7Bu8, 0x22, a, 0x22, 0x3A, 0x31, 0x2C, 0x22, b, 0x22, 0x3A, 0x32, 0x7D],
        ) == seq![seq![0x22u8, a, 0x22], seq![0x22u8, b, 0x22]],
{
    let s = seq![0x7Bu8, 0x22, a, 0x22, 0x3A, 0x31, 0x2C, 0x22, b, 0x22, 0x3A, 0x32, 0x7D];
    reveal_with_fuel(names_scanned, 14);
    let n4 = names_scanned(s, 4);
    assert(n4.names =~= seq![seq![0x22u8, a, 0x22]]) by {
        assert(s.subrange(1, 4) =~= seq![0x22u8, a, 0x22]);
    }
    let n10 = names_scanned(s, 10);
    assert(n10.names =~= seq![seq![0x22u8, a, 0x22], seq![0x22u8, b, 0x22]]) by {
        assert(s.subrange(7, 10) =~= seq![0x22u8, b, 0x22]);
    }
}

} // verus!
