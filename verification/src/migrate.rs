//! Forward migration of the configuration document.
//!
//! Every release that changes the on-disk layout adds a step here. Migration is
//! one directional (old to new) and always ends at [`CURRENT_SCHEMA_VERSION`]; a
//! document from a *newer* version is refused rather than silently downgraded,
//! because writing it back would lose fields.
use crate::error::{fail, ErrorCode, RdtError, RdtErrorView, RdtResult};
use crate::settings::CURRENT_SCHEMA_VERSION;
use crate::text::{concat2, concat4, decimal, to_decimal};
use vstd::prelude::*;

verus! {

/// A TOML table.
#[verifier::external_type_specification]
#[verifier::external_body]
#[verifier::reject_recursive_types(K)]
#[verifier::reject_recursive_types(V)]
pub struct ExTable<K, V>(toml::map::Map<K, V>);

/// A TOML value.
#[verifier::external_type_specification]
#[verifier::external_body]
pub struct ExValue(toml::Value);

/// The top-level fields of a table: of each the integer, if it is one, and the TOML
/// text of the value.
pub uninterp spec fn table_fields(table: toml::map::Map<String, toml::Value>) -> Map<
    Seq<char>,
    (Option<i64>, Seq<char>),
>;

/// The top-level fields of a TOML document, or why a text is none.
pub uninterp spec fn toml_read(text: Seq<char>) -> Result<
    Map<Seq<char>, (Option<i64>, Seq<char>)>,
    Seq<char>,
>;

/// The TOML document with the given top-level fields, or why there is none.
pub uninterp spec fn toml_written(fields: Map<Seq<char>, (Option<i64>, Seq<char>)>) -> Result<
    Seq<char>,
    Seq<char>,
>;

/// The integer in a field.
pub open spec fn integer_in(
    fields: Map<Seq<char>, (Option<i64>, Seq<char>)>,
    field: Seq<char>,
) -> Option<i64> {
    if fields.contains_key(field) {
        fields[field].0
    } else {
        None
    }
}

/// The integer in a top-level field of a TOML document.
pub open spec fn toml_integer(text: Seq<char>, field: Seq<char>) -> Option<i64> {
    match toml_read(text) {
        Ok(fields) => integer_in(fields, field),
        Err(_) => None,
    }
}

/// A TOML document with a number put into a top-level field; or why the text is no
/// document, or why the result cannot be written.
pub open spec fn toml_stamped(text: Seq<char>, field: Seq<char>, value: u32) -> Result<
    Seq<char>,
    (StampStage, Seq<char>),
> {
    match toml_read(text) {
        Err(reason) => Err((StampStage::Parse, reason)),
        Ok(fields) => match toml_written(
            fields.insert(field, (Some(value as i64), decimal(value as nat))),
        ) {
            Err(reason) => Err((StampStage::Encode, reason)),
            Ok(document) => Ok(document),
        },
    }
}

/// Which part of stamping a document failed.
#[derive(Debug, Clone, Copy, PartialEq, Eq, Structural)]
pub enum StampStage {
    /// The text is no document.
    Parse,
    /// The changed document cannot be written.
    Encode,
}

/// Reads a TOML document.
///
/// Calls toml's `Table` parser. What it accepts and how a failure is worded is left
/// to the name.
#[verifier::external_body]
fn parse_table(text: &str) -> (r: Result<toml::map::Map<String, toml::Value>, String>)
    ensures
        match r {
            Ok(table) => toml_read(text@) is Ok && toml_read(text@)->Ok_0 == table_fields(table),
            Err(reason) => toml_read(text@) is Err && toml_read(text@)->Err_0 == reason@,
        },
{
    text.parse::<toml::Table>().map_err(|error| error.to_string())
}

/// Reads the integer in a field of a table.
///
/// Calls toml's `Table::get` and hands the value out by `Value::as_integer`: nothing
/// comes out for a field that is absent or holds something else.
#[verifier::external_body]
fn table_integer(table: &toml::map::Map<String, toml::Value>, field: &str) -> (r: Option<i64>)
    ensures
        r == integer_in(table_fields(*table), field@),
{
    table.get(field)?.as_integer()
}

/// Puts a number into a field of a table.
///
/// Calls toml's `Table::insert`, which replaces what the field held and leaves the
/// other fields; the text of an integer is its decimal notation.
#[verifier::external_body]
fn insert_number(table: &mut toml::map::Map<String, toml::Value>, field: &str, value: u32)
    ensures
        table_fields(*final(table)) == table_fields(*old(table)).insert(
            field@,
            (Some(value as i64), decimal(value as nat)),
        ),
{
    table.insert(field.to_owned(), toml::Value::Integer(i64::from(value)));
}

/// Writes a table as a TOML document.
///
/// Calls toml's `to_string`. Where the document that comes out can be read, its
/// integer fields are those of the table; how the document and a failure are worded
/// is left to the name. That it can be read is not claimed: the parser limits the
/// depth of a header, of a dotted key and of a value one by one, and writing joins
/// them.
#[verifier::external_body]
fn write_table(table: &toml::map::Map<String, toml::Value>) -> (r: Result<String, String>)
    ensures
        match r {
            Ok(document) => {
                &&& toml_written(table_fields(*table)) is Ok
                &&& toml_written(table_fields(*table))->Ok_0 == document@
                &&& toml_read(document@) is Ok ==> forall|field: Seq<char>| #[trigger]
                    integer_in(toml_read(document@)->Ok_0, field) == integer_in(
                        table_fields(*table),
                        field,
                    )
            },
            Err(reason) => {
                &&& toml_written(table_fields(*table)) is Err
                &&& toml_written(table_fields(*table))->Err_0 == reason@
            },
        },
{
    toml::to_string(table).map_err(|error| error.to_string())
}

/// Reads the integer in a top-level field of a TOML document: none for a text that
/// is no document, a field that is absent, or one that holds something else.
fn read_integer(text: &str, field: &str) -> (r: Option<i64>)
    ensures
        r == toml_integer(text@, field@),
{
    match parse_table(text) {
        Ok(table) => table_integer(&table, field),
        Err(_) => None,
    }
}

/// Puts a number into a top-level field of a TOML document. Where the document that
/// comes out can be read, the field holds the number and the other integer fields
/// are kept.
fn write_integer(text: &str, field: &str, value: u32) -> (r: Result<String, (StampStage, String)>)
    ensures
        match r {
            Ok(document) => {
                &&& toml_stamped(text@, field@, value) is Ok
                &&& toml_stamped(text@, field@, value)->Ok_0 == document@
                &&& toml_read(document@) is Ok ==> toml_integer(document@, field@) == Some(
                    value as i64,
                )
                &&& toml_read(document@) is Ok ==> forall|other: Seq<char>|
                    other != field@ ==> #[trigger] toml_integer(document@, other) == toml_integer(
                        text@,
                        other,
                    )
            },
            Err(failure) => {
                &&& toml_stamped(text@, field@, value) is Err
                &&& toml_stamped(text@, field@, value)->Err_0.0 == failure.0
                &&& toml_stamped(text@, field@, value)->Err_0.1 == failure.1@
            },
        },
{
    let mut table = match parse_table(text) {
        Ok(table) => table,
        Err(reason) => {
            return Err((StampStage::Parse, reason));
        },
    };
    insert_number(&mut table, field, value);
    match write_table(&table) {
        Ok(document) => Ok(document),
        Err(reason) => Err((StampStage::Encode, reason)),
    }
}

/// The version that a field declares; anything that is no version counts as the
/// first layout, which had none.
pub open spec fn declared_version(field: Option<i64>) -> u32 {
    match field {
        Some(n) => if 0 <= n <= u32::MAX {
            n as u32
        } else {
            0
        },
        None => 0,
    }
}

/// The version that a document declares.
pub open spec fn version_of(text: Seq<char>) -> u32 {
    declared_version(toml_integer(text, "schema_version"@))
}

/// A document that can be read and holds an integer as its version.
pub open spec fn versioned(text: Seq<char>) -> bool {
    toml_integer(text, "schema_version"@) is Some
}

/// The version that a field declares.
pub fn field_version(field: Option<i64>) -> (r: u32)
    ensures
        r == declared_version(field),
{
    match field {
        Some(n) => if 0 <= n && n <= 0xFFFF_FFFF {
            n as u32
        } else {
            0
        },
        None => 0,
    }
}

/// Returns the schema version declared by a document, defaulting to 0.
pub fn document_version(text: &str) -> (r: u32)
    ensures
        r == version_of(text@),
{
    field_version(read_integer(text, "schema_version"))
}

/// What is done with a document of a version.
#[derive(Debug, Clone, Copy, PartialEq, Eq, Structural)]
pub enum MigrationStep {
    /// The document is current.
    Keep,
    /// The document needs the current version.
    Stamp,
    /// The document is too new.
    Refuse,
}

/// What is done with a document of a version.
pub fn migration_step(version: u32) -> (r: MigrationStep)
    ensures
        r == if version == CURRENT_SCHEMA_VERSION {
            MigrationStep::Keep
        } else if version > CURRENT_SCHEMA_VERSION {
            MigrationStep::Refuse
        } else {
            MigrationStep::Stamp
        },
{
    if version == CURRENT_SCHEMA_VERSION {
        MigrationStep::Keep
    } else if version > CURRENT_SCHEMA_VERSION {
        MigrationStep::Refuse
    } else {
        MigrationStep::Stamp
    }
}

/// The failure of a document that is too new.
pub open spec fn too_new(version: u32) -> RdtErrorView {
    fail(
        ErrorCode::Unsupported,
        "configuration was written by schema version "@ + decimal(version as nat)
            + "; this build understands up to "@ + decimal(CURRENT_SCHEMA_VERSION as nat),
    )
}

/// The document in the current layout, or why there is none.
pub open spec fn migrated(text: Seq<char>) -> Result<Seq<char>, RdtErrorView> {
    let version = version_of(text);
    if version == CURRENT_SCHEMA_VERSION {
        Ok(text)
    } else if version > CURRENT_SCHEMA_VERSION {
        Err(too_new(version))
    } else {
        match toml_stamped(text, "schema_version"@, CURRENT_SCHEMA_VERSION) {
            Ok(document) => Ok(document),
            Err(failure) => Err(stamp_failure(failure.0, failure.1)),
        }
    }
}

/// The failure to stamp a document.
pub open spec fn stamp_failure(stage: StampStage, reason: Seq<char>) -> RdtErrorView {
    match stage {
        StampStage::Parse => fail(ErrorCode::Config, "cannot parse configuration: "@ + reason),
        StampStage::Encode => fail(
            ErrorCode::Config,
            "cannot re-encode configuration: "@ + reason,
        ),
    }
}

/// The error for a document that cannot be stamped.
pub fn stamp_failed(stage: StampStage, reason: &str) -> (r: RdtError)
    ensures
        r@ == stamp_failure(stage, reason@),
{
    match stage {
        StampStage::Parse => RdtError::new(
            ErrorCode::Config,
            concat2("cannot parse configuration: ", reason).as_str(),
        ),
        StampStage::Encode => RdtError::new(
            ErrorCode::Config,
            concat2("cannot re-encode configuration: ", reason).as_str(),
        ),
    }
}

/// Brings a document up to the current schema version.
///
/// Returns the document text unchanged when it is already current. What comes out
/// is current wherever it can be read again.
///
/// # Errors
///
/// * [`ErrorCode::Config`] when the document cannot be parsed.
/// * [`ErrorCode::Unsupported`] when it was written by a newer version.
pub fn migrate(text: &str) -> (r: RdtResult<String>)
    ensures
        match r {
            Ok(document) => migrated(text@) == Ok::<Seq<char>, RdtErrorView>(document@),
            Err(error) => migrated(text@) == Err::<Seq<char>, RdtErrorView>(error@),
        },
        r is Ok && versioned(r->Ok_0@) ==> version_of(r->Ok_0@) == CURRENT_SCHEMA_VERSION,
        r is Ok && versioned(r->Ok_0@) ==> forall|other: Seq<char>|
            other != "schema_version"@ ==> #[trigger] toml_integer(r->Ok_0@, other)
                == toml_integer(text@, other),
        r is Ok && versioned(r->Ok_0@) ==> migrated(r->Ok_0@) == Ok::<Seq<char>, RdtErrorView>(
            r->Ok_0@,
        ),
{
    let version = document_version(text);
    match migration_step(version) {
        MigrationStep::Keep => Ok(text.to_owned()),
        MigrationStep::Refuse => {
            let message = concat4(
                "configuration was written by schema version ",
                to_decimal(version as u64).as_str(),
                "; this build understands up to ",
                to_decimal(CURRENT_SCHEMA_VERSION as u64).as_str(),
            );
            Err(RdtError::new(ErrorCode::Unsupported, message.as_str()))
        },
        // The layout without a version has the same fields, so it only needs
        // stamping.
        MigrationStep::Stamp => match write_integer(
            text,
            "schema_version",
            CURRENT_SCHEMA_VERSION,
        ) {
            Ok(document) => Ok(document),
            Err((stage, reason)) => Err(stamp_failed(stage, reason.as_str())),
        },
    }
}

/// A document without a version, or with something that is none, is of the first layout,
/// which counts as zero; the current one is kept as it is, an older one stamped, and a
/// newer one refused as unsupported.
pub proof fn documents_are_brought_up_to_date(text: Seq<char>)
    ensures
        toml_integer(text, "schema_version"@) is None ==> version_of(text) == 0,
        toml_integer(text, "schema_version"@) is Some && 0 <= toml_integer(
            text,
            "schema_version"@,
        )->0 <= u32::MAX ==> version_of(text) == toml_integer(text, "schema_version"@)->0,
        toml_integer(text, "schema_version"@) is Some && !(0 <= toml_integer(
            text,
            "schema_version"@,
        )->0 <= u32::MAX) ==> version_of(text) == 0,
        version_of(text) == 1 ==> migrated(text) == Ok::<Seq<char>, RdtErrorView>(text),
        version_of(text) > 1 ==> migrated(text) is Err && migrated(text)->Err_0.code
            == ErrorCode::Unsupported,
        version_of(text) == 0 && toml_read(text) is Err ==> migrated(text) is Err && migrated(
            text,
        )->Err_0.code == ErrorCode::Config,
        version_of(text) == 0 && toml_read(text) is Ok ==> {
            let stamped = toml_written(
                toml_read(text)->Ok_0.insert("schema_version"@, (Some(1i64), decimal(1))),
            );
            &&& stamped is Ok ==> migrated(text) == Ok::<Seq<char>, RdtErrorView>(
                stamped->Ok_0,
            )
            &&& stamped is Err ==> migrated(text) is Err && migrated(text)->Err_0.code
                == ErrorCode::Config
        },
{
}

} // verus!
