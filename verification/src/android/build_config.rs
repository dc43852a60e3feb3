//! The generated `BuildConfig.java`.

use crate::json::{models, Json, JsonModel};
use crate::number::{decimal, decimal_text};
use crate::text::{chars_of, concatenated};
use vstd::prelude::*;

verus! {

/// A field declared by the module: its Java type, its name and the expression
/// it is initialized with.
#[derive(Debug)]
pub struct BuildConfigField {
    pub java_type: String,
    pub name: String,
    pub initializer: String,
}

/// What one variant's `BuildConfig.java` is made of.
pub struct BuildConfigParams<'a> {
    pub namespace: &'a str,
    pub application_id: &'a str,
    pub build_type: &'a str,
    pub debug: bool,
    pub flavor: &'a str,
    pub version_code: i64,
    pub version_name: &'a str,
    pub min_sdk: i64,
    pub target_sdk: i64,
    pub compile_sdk: i64,
    pub user_fields: &'a [BuildConfigField],
}

/// The mathematical counterpart of [`BuildConfigField`].
pub struct FieldModel {
    pub java_type: Seq<char>,
    pub name: Seq<char>,
    pub initializer: Seq<char>,
}

/// The mathematical counterpart of [`BuildConfigParams`].
pub struct ParamsModel {
    pub namespace: Seq<char>,
    pub application_id: Seq<char>,
    pub build_type: Seq<char>,
    pub debug: bool,
    pub flavor: Seq<char>,
    pub version_code: i64,
    pub version_name: Seq<char>,
    pub min_sdk: i64,
    pub target_sdk: i64,
    pub compile_sdk: i64,
    pub user_fields: Seq<FieldModel>,
}

impl View for BuildConfigField {
    type V = FieldModel;

    open spec fn view(&self) -> FieldModel {
        FieldModel {
            java_type: self.java_type@,
            name: self.name@,
            initializer: self.initializer@,
        }
    }
}

impl<'a> View for BuildConfigParams<'a> {
    type V = ParamsModel;

    open spec fn view(&self) -> ParamsModel {
        ParamsModel {
            namespace: self.namespace@,
            application_id: self.application_id@,
            build_type: self.build_type@,
            debug: self.debug,
            flavor: self.flavor@,
            version_code: self.version_code,
            version_name: self.version_name@,
            min_sdk: self.min_sdk,
            target_sdk: self.target_sdk,
            compile_sdk: self.compile_sdk,
            user_fields: field_models(self.user_fields@),
        }
    }
}

/// The fields of a list, by their models.
pub open spec fn field_models(fields: Seq<BuildConfigField>) -> Seq<FieldModel> {
    fields.map_values(|field: BuildConfigField| field@)
}

/// The text of a value, or a default where it is no string.
pub open spec fn str_or(value: JsonModel, default: Seq<char>) -> Seq<char> {
    match value.as_str() {
        Some(s) => s,
        None => default,
    }
}

/// The field declared by a list of three values.
pub open spec fn nested_field(triple: Seq<JsonModel>) -> FieldModel {
    FieldModel {
        java_type: str_or(triple[0], "Object"@),
        name: str_or(triple[1], "_UNKNOWN_"@),
        initializer: str_or(triple[2], "null"@),
    }
}

/// A value that is a list of three.
pub open spec fn is_triple(value: JsonModel) -> bool {
    value.as_array() is Some && value.as_array()->0.len() == 3
}

/// Three strings stand at the front.
pub open spec fn starts_with_strings(items: Seq<JsonModel>) -> bool {
    &&& items.len() >= 3
    &&& items[0].as_str() is Some
    &&& items[1].as_str() is Some
    &&& items[2].as_str() is Some
}

/// The fields declared by a `buildConfigField` list: a list of three is a field,
/// three strings in a row are a field, anything else is passed over.
pub open spec fn declared_fields(items: Seq<JsonModel>) -> Seq<FieldModel>
    decreases items.len(),
{
    if items.len() == 0 {
        seq![]
    } else if is_triple(items[0]) {
        seq![nested_field(items[0].as_array()->0)] + declared_fields(items.skip(1))
    } else if starts_with_strings(items) {
        seq![
            FieldModel {
                java_type: items[0].as_str()->0,
                name: items[1].as_str()->0,
                initializer: items[2].as_str()->0,
            },
        ] + declared_fields(items.skip(3))
    } else {
        declared_fields(items.skip(1))
    }
}

/// The fields an `android` block declares.
pub open spec fn block_fields(android: JsonModel) -> Seq<FieldModel> {
    match android.array_at("buildConfigField"@) {
        Some(items) => declared_fields(items),
        None => seq![],
    }
}

/// A character inside a Java string literal.
pub open spec fn escaped_char(c: char) -> Seq<char> {
    if c == '\\' || c == '"' {
        seq!['\\', c]
    } else {
        seq![c]
    }
}

/// A text inside a Java string literal: a backslash stands before each
/// backslash and each double quote.
pub open spec fn escaped(s: Seq<char>) -> Seq<char>
    decreases s.len(),
{
    if s.len() == 0 {
        seq![]
    } else {
        escaped_char(s[0]) + escaped(s.skip(1))
    }
}

/// A text as a Java string literal.
pub open spec fn quoted(s: Seq<char>) -> Seq<char> {
    seq!['"'] + escaped(s) + seq!['"']
}

/// The text that the inside of a Java string literal stands for; nothing where
/// a double quote would end the literal early or a backslash escapes neither a
/// backslash nor a double quote.
pub open spec fn literal_text(s: Seq<char>) -> Option<Seq<char>>
    decreases s.len(),
{
    if s.len() == 0 {
        Some(seq![])
    } else if s[0] == '"' {
        None
    } else if s[0] == '\\' {
        if s.len() >= 2 && (s[1] == '\\' || s[1] == '"') {
            match literal_text(s.skip(2)) {
                Some(rest) => Some(seq![s[1]] + rest),
                None => None,
            }
        } else {
            None
        }
    } else {
        match literal_text(s.skip(1)) {
            Some(rest) => Some(seq![s[0]] + rest),
            None => None,
        }
    }
}

/// One constant of the class.
pub open spec fn constant(java_type: Seq<char>, name: Seq<char>, value: Seq<char>) -> Seq<char> {
    "  public static final "@ + java_type + " "@ + name + " = "@ + value + ";\n"@
}

/// The constants of declared fields.
pub open spec fn field_constants(fields: Seq<FieldModel>) -> Seq<Seq<char>> {
    fields.map_values(
        |field: FieldModel| constant(field.java_type, field.name, field.initializer),
    )
}

/// A boolean as Java writes it.
pub open spec fn truth(b: bool) -> Seq<char> {
    if b {
        "true"@
    } else {
        "false"@
    }
}

/// The Java source of a variant's `BuildConfig`.
pub open spec fn buildconfig_source(p: ParamsModel) -> Seq<char> {
    "package "@ + p.namespace + ";\n\n"@ + "public final class BuildConfig {\n"@ + constant(
        "String"@,
        "APPLICATION_ID"@,
        quoted(p.application_id),
    ) + constant("String"@, "BUILD_TYPE"@, quoted(p.build_type)) + constant(
        "boolean"@,
        "DEBUG"@,
        truth(p.debug),
    ) + constant("String"@, "FLAVOR"@, quoted(p.flavor)) + constant(
        "int"@,
        "VERSION_CODE"@,
        decimal(p.version_code as int),
    ) + constant("String"@, "VERSION_NAME"@, quoted(p.version_name)) + constant(
        "int"@,
        "MIN_SDK_VERSION"@,
        decimal(p.min_sdk as int),
    ) + constant("int"@, "TARGET_SDK_VERSION"@, decimal(p.target_sdk as int)) + constant(
        "int"@,
        "COMPILE_SDK_VERSION"@,
        decimal(p.compile_sdk as int),
    ) + concatenated(field_constants(p.user_fields)) + "}\n"@
}

/// What a quoted text stands for is the text.
pub proof fn law_quoting_keeps_the_text(s: Seq<char>)
    ensures
        literal_text(escaped(s)) == Some(s),
    decreases s.len(),
{
    if s.len() > 0 {
        let rest = s.skip(1);
        law_quoting_keeps_the_text(rest);
        let literal = escaped(s);
        assert(seq![s[0]] + rest =~= s);
        if s[0] == '\\' || s[0] == '"' {
            assert(literal.skip(2) =~= escaped(rest));
        } else {
            assert(literal.skip(1) =~= escaped(rest));
        }
    } else {
        assert(s =~= seq![]);
    }
}

/// A quoted text stands between two double quotes, and what is between them
/// stands for the text.
pub proof fn law_quoted_text_is_a_literal(s: Seq<char>)
    ensures
        quoted(s).len() >= 2,
        quoted(s).first() == '"',
        quoted(s).last() == '"',
        literal_text(quoted(s).subrange(1, quoted(s).len() - 1)) == Some(s),
{
    law_quoting_keeps_the_text(s);
    assert(quoted(s).subrange(1, quoted(s).len() - 1) =~= escaped(s));
}

/// Lists of three strings are read back as the fields they spell.
proof fn lemma_nested_fields_are_read(items: Seq<JsonModel>, fields: Seq<FieldModel>)
    requires
        items.len() == fields.len(),
        forall|k: int|
            0 <= k < items.len() ==> is_triple(#[trigger] items[k]) && nested_field(
                items[k].as_array()->0,
            ) == fields[k],
    ensures
        declared_fields(items) == fields,
    decreases items.len(),
{
    if items.len() > 0 {
        let rest = items.skip(1);
        assert forall|k: int| 0 <= k < rest.len() implies is_triple(#[trigger] rest[k])
            && nested_field(rest[k].as_array()->0) == fields.skip(1)[k] by {
            assert(rest[k] == items[k + 1]);
        }
        lemma_nested_fields_are_read(rest, fields.skip(1));
        assert(seq![fields[0]] + fields.skip(1) =~= fields);
    } else {
        assert(fields =~= seq![]);
    }
}

/// The value is a list of a field's Java type, its name and its initializer;
/// what is no string there stands for `Object`, `_UNKNOWN_` or `null`.
pub open spec fn spells(value: JsonModel, field: FieldModel) -> bool {
    &&& value.as_array() matches Some(triple)
    &&& triple.len() == 3
    &&& match triple[0].as_str() {
        Some(s) => field.java_type == s,
        None => field.java_type == "Object"@,
    }
    &&& match triple[1].as_str() {
        Some(s) => field.name == s,
        None => field.name == "_UNKNOWN_"@,
    }
    &&& match triple[2].as_str() {
        Some(s) => field.initializer == s,
        None => field.initializer == "null"@,
    }
}

/// However many fields a module declares, all are read: the first as three
/// strings in a row, the others as lists of three behind them.
pub proof fn law_declared_fields_are_read_back(
    items: Seq<JsonModel>,
    fields: Seq<FieldModel>,
)
    requires
        fields.len() > 0,
        items.len() == fields.len() + 2,
        items[0].as_str() == Some(fields[0].java_type),
        items[1].as_str() == Some(fields[0].name),
        items[2].as_str() == Some(fields[0].initializer),
        forall|k: int|
            3 <= k < items.len() ==> spells(#[trigger] items[k], fields[k - 2]),
    ensures
        declared_fields(items) == fields,
{
    let rest = items.skip(3);
    assert forall|k: int| 0 <= k < rest.len() implies is_triple(#[trigger] rest[k])
        && nested_field(rest[k].as_array()->0) == fields.skip(1)[k] by {
        assert(rest[k] == items[k + 3]);
        assert(spells(items[k + 3], fields[k + 1]));
    }
    lemma_nested_fields_are_read(rest, fields.skip(1));
    assert(!is_triple(items[0]));
    assert(seq![fields[0]] + fields.skip(1) =~= fields);
}

/// A list of lists of three is read as the fields that they spell.
pub proof fn law_nested_fields_are_read_back(items: Seq<JsonModel>, fields: Seq<FieldModel>)
    requires
        items.len() == fields.len(),
        forall|k: int| 0 <= k < items.len() ==> spells(#[trigger] items[k], fields[k]),
    ensures
        declared_fields(items) == fields,
{
    assert forall|k: int| 0 <= k < items.len() implies is_triple(#[trigger] items[k])
        && nested_field(items[k].as_array()->0) == fields[k] by {
        assert(spells(items[k], fields[k]));
    }
    lemma_nested_fields_are_read(items, fields);
}

/// An entry that is neither a string nor a list of three declares nothing, and
/// the entries behind it are read as if it were not there.
pub proof fn law_other_entries_are_passed_over(item: JsonModel, rest: Seq<JsonModel>)
    requires
        item.as_str() is None,
        item.as_array() matches Some(list) ==> list.len() != 3,
    ensures
        declared_fields(seq![item] + rest) == declared_fields(rest),
{
    let items = seq![item] + rest;
    assert(items[0] == item);
    assert(items.skip(1) =~= rest);
}

/// The text of a value, or a default where it is no string.
fn text_or(value: &Json, default: &str) -> (r: String)
    ensures
        r@ == str_or(value@, default@),
{
    match value.as_str() {
        Some(s) => s.to_owned(),
        None => default.to_owned(),
    }
}

/// The field declared by a list of three values.
fn nested(value: &Json) -> (r: Option<BuildConfigField>)
    ensures
        match r {
            Some(field) => is_triple(value@) && field@ == nested_field(value@.as_array()->0),
            None => !is_triple(value@),
        },
{
    match value.as_array() {
        None => None,
        Some(triple) => {
            if triple.len() == 3 {
                assert(models(triple@)[0] == triple@[0]@);
                assert(models(triple@)[1] == triple@[1]@);
                assert(models(triple@)[2] == triple@[2]@);
                Some(
                    BuildConfigField {
                        java_type: text_or(&triple[0], "Object"),
                        name: text_or(&triple[1], "_UNKNOWN_"),
                        initializer: text_or(&triple[2], "null"),
                    },
                )
            } else {
                None
            }
        },
    }
}

/// The field declared by three strings in a row from position `i` on.
fn flat(items: &[Json], i: usize) -> (r: Option<BuildConfigField>)
    requires
        i < items@.len(),
    ensures
        match r {
            Some(field) => {
                let rest = models(items@).skip(i as int);
                &&& starts_with_strings(rest)
                &&& field@ == FieldModel {
                    java_type: rest[0].as_str()->0,
                    name: rest[1].as_str()->0,
                    initializer: rest[2].as_str()->0,
                }
            },
            None => !starts_with_strings(models(items@).skip(i as int)),
        },
{
    let ghost rest = models(items@).skip(i as int);
    if items.len() - i < 3 {
        return None;
    }
    assert(rest[0] == items@[i as int]@);
    assert(rest[1] == items@[i + 1]@);
    assert(rest[2] == items@[i + 2]@);
    match (items[i].as_str(), items[i + 1].as_str(), items[i + 2].as_str()) {
        (Some(java_type), Some(name), Some(initializer)) => Some(
            BuildConfigField {
                java_type: java_type.to_owned(),
                name: name.to_owned(),
                initializer: initializer.to_owned(),
            },
        ),
        _ => None,
    }
}

/// Adds a field to a list.
fn push_field(fields: &mut Vec<BuildConfigField>, field: BuildConfigField)
    ensures
        field_models(final(fields)@) == field_models(old(fields)@).push(field@),
{
    let ghost earlier = fields@;
    fields.push(field);
    assert(field_models(fields@) =~= field_models(earlier).push(field@));
}

/// Reads the `buildConfigField` entries of the `android` block, each a triple of
/// type, name and initializer.
///
/// A single declaration arrives as a flat list of three strings. With two or
/// more, the first triple stays flat and each further one is a nested list.
pub fn parse_build_config_fields(android: &Json) -> (r: Vec<BuildConfigField>)
    ensures
        field_models(r@) == block_fields(android@),
{
    let mut fields: Vec<BuildConfigField> = Vec::new();
    assert(field_models(fields@) =~= seq![]);
    match android.array_at("buildConfigField") {
        None => {},
        Some(items) => {
            let ghost all = models(items@);
            let mut i: usize = 0;
            assert(all.skip(0) == all);
            assert(field_models(fields@) + declared_fields(all) =~= declared_fields(all));
            while i < items.len()
                invariant
                    i <= items@.len(),
                    all == models(items@),
                    field_models(fields@) + declared_fields(all.skip(i as int))
                        == declared_fields(all),
                decreases items@.len() - i,
            {
                let ghost rest = all.skip(i as int);
                let ghost earlier = field_models(fields@);
                assert(rest[0] == items@[i as int]@);
                assert(rest.skip(1) == all.skip(i + 1));
                match nested(&items[i]) {
                    Some(field) => {
                        push_field(&mut fields, field);
                        i = i + 1;
                        assert(earlier + declared_fields(rest) =~= field_models(fields@)
                            + declared_fields(all.skip(i as int)));
                    },
                    None => match flat(items, i) {
                        Some(field) => {
                            assert(rest.skip(3) == all.skip(i + 3));
                            push_field(&mut fields, field);
                            i = i + 3;
                            assert(earlier + declared_fields(rest) =~= field_models(fields@)
                                + declared_fields(all.skip(i as int)));
                        },
                        None => {
                            i = i + 1;
                        },
                    },
                }
            }
            assert(all.skip(i as int) =~= seq![]);
            assert(field_models(fields@) + seq![] =~= field_models(fields@));
        },
    }
    fields
}

/// Wraps a value in the quotes of a Java string literal, escaping backslashes
/// and double quotes.
pub fn quote_string(value: &str) -> (r: String)
    ensures
        r@ == quoted(value@),
{
    let chars = chars_of(value);
    let ghost all = value@;
    let mut out = String::new();
    out.push('"');
    let mut i: usize = 0;
    assert(all.skip(0) == all);
    assert(out@ =~= seq!['"']);
    while i < chars.len()
        invariant
            i <= chars@.len(),
            chars@ == all,
            out@ + escaped(all.skip(i as int)) == seq!['"'] + escaped(all),
        decreases chars@.len() - i,
    {
        let ghost rest = all.skip(i as int);
        let ghost earlier = out@;
        let c = chars[i];
        assert(rest[0] == c);
        assert(rest.skip(1) == all.skip(i + 1));
        if c == '\\' || c == '"' {
            out.push('\\');
        }
        out.push(c);
        i = i + 1;
        assert(earlier + escaped(rest) =~= out@ + escaped(all.skip(i as int)));
    }
    assert(all.skip(i as int) =~= seq![]);
    assert(out@ + seq![] =~= out@);
    out.push('"');
    assert(out@ =~= quoted(all));
    out
}

/// Adds one constant to the source.
fn write_constant(out: &mut String, java_type: &str, name: &str, value: &str)
    ensures
        final(out)@ == old(out)@ + constant(java_type@, name@, value@),
{
    let mut line = "  public static final ".to_owned();
    line.append(java_type);
    line.append(" ");
    line.append(name);
    line.append(" = ");
    line.append(value);
    line.append(";\n");
    out.append(line.as_str());
}

/// The constants of declared fields, one after another.
fn constants_of(fields: &[BuildConfigField]) -> (r: String)
    ensures
        r@ == concatenated(field_constants(field_models(fields@))),
{
    let ghost lines = field_constants(field_models(fields@));
    let mut out = String::new();
    let mut i: usize = 0;
    assert(out@ =~= concatenated(lines.take(0)));
    while i < fields.len()
        invariant
            i <= fields@.len(),
            lines == field_constants(field_models(fields@)),
            out@ == concatenated(lines.take(i as int)),
        decreases fields@.len() - i,
    {
        let field = &fields[i];
        assert(lines[i as int] == constant(field.java_type@, field.name@, field.initializer@));
        write_constant(
            &mut out,
            field.java_type.as_str(),
            field.name.as_str(),
            field.initializer.as_str(),
        );
        i = i + 1;
        assert(lines.take(i as int).drop_last() == lines.take(i - 1));
    }
    assert(lines.take(i as int) == lines);
    out
}

/// A boolean as Java writes it.
fn bool_text(b: bool) -> (r: &'static str)
    ensures
        r@ == truth(b),
{
    if b {
        "true"
    } else {
        "false"
    }
}

/// Generates the Java source of `BuildConfig.java`.
pub fn generate_buildconfig_source(params: &BuildConfigParams<'_>) -> (r: String)
    ensures
        r@ == buildconfig_source(params@),
{
    let mut out = "package ".to_owned();
    out.append(params.namespace);
    out.append(";\n\n");
    out.append("public final class BuildConfig {\n");
    write_constant(
        &mut out,
        "String",
        "APPLICATION_ID",
        quote_string(params.application_id).as_str(),
    );
    write_constant(&mut out, "String", "BUILD_TYPE", quote_string(params.build_type).as_str());
    write_constant(&mut out, "boolean", "DEBUG", bool_text(params.debug));
    write_constant(&mut out, "String", "FLAVOR", quote_string(params.flavor).as_str());
    write_constant(&mut out, "int", "VERSION_CODE", decimal_text(params.version_code).as_str());
    write_constant(&mut out, "String", "VERSION_NAME", quote_string(params.version_name).as_str());
    write_constant(&mut out, "int", "MIN_SDK_VERSION", decimal_text(params.min_sdk).as_str());
    write_constant(
        &mut out,
        "int",
        "TARGET_SDK_VERSION",
        decimal_text(params.target_sdk).as_str(),
    );
    write_constant(
        &mut out,
        "int",
        "COMPILE_SDK_VERSION",
        decimal_text(params.compile_sdk).as_str(),
    );
    out.append(constants_of(params.user_fields).as_str());
    out.append("}\n");
    out
}

} // verus!
