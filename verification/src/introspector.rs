//! From a report to a schema: what a type descriptor describes, and what the properties,
//! the entities and the queries of a report give.

use crate::error::{DimensionFault, Error, ErrorView};
use crate::ordered_map::{inserted, lemma_inserted_ordered, strictly_ordered, OrderedMap};
use crate::schema::{
    well_formed, DescriptorMap, DescriptorsView, EdgeDefinition, EdgeDefinitionView, EdgeInfo, EdgeInfoView,
    FieldType, FieldTypeView, HelixSchema, HelixSchemaView, IntrospectionResponse,
    IntrospectionResponseView, NodeDefinition, NodeDefinitionView, NodeInfo, NodeInfoView,
    PropertiesView, PropertyMap, QueryDefinition, QueryDefinitionView, QueryInfo, QueryInfoView,
    VectorDefinition, VectorDefinitionView, VectorInfo, VectorInfoView,
};
use crate::text::{
    all_digits, decimal, decimal_value, enclosed, enclosed_range, is_digit, joined,
    lemma_decimal_reads_back, lemma_decimal_value_grows, push_joined, range_is, string_of, texts,
    to_chars,
};
use crate::utils::{snake_case, to_snake_case};
use vstd::prelude::*;
use vstd::string::StringExecFns;

verus! {

/// The dimension that `text` writes: a number in decimal digits that fits in a `usize`.
pub open spec fn dimension(text: Seq<char>) -> Result<nat, DimensionFault> {
    if text.len() == 0 {
        Err(DimensionFault::Empty)
    } else if !all_digits(text) {
        Err(DimensionFault::InvalidDigit)
    } else if decimal_value(text) > usize::MAX {
        Err(DimensionFault::TooLarge)
    } else {
        Ok(decimal_value(text))
    }
}

/// Reads `chars[from..to]` as a dimension.
fn dimension_of(chars: &Vec<char>, from: usize, to: usize) -> (r: Result<usize, DimensionFault>)
    requires
        from <= to <= chars@.len(),
    ensures
        match r {
            Ok(n) => dimension(chars@.subrange(from as int, to as int)) == Ok::<
                nat,
                DimensionFault,
            >(n as nat),
            Err(fault) => dimension(chars@.subrange(from as int, to as int)) == Err::<
                nat,
                DimensionFault,
            >(fault),
        },
{
    let ghost text = chars@.subrange(from as int, to as int);
    if from == to {
        return Err(DimensionFault::Empty);
    }
    let mut i: usize = from;
    while i < to
        invariant
            from <= i <= to <= chars@.len(),
            text == chars@.subrange(from as int, to as int),
            forall|j: int| 0 <= j < i - from ==> is_digit(#[trigger] text[j]),
        decreases to - i,
    {
        let c = chars[i];
        if !('0' <= c && c <= '9') {
            assert(!is_digit(text[i - from]));
            return Err(DimensionFault::InvalidDigit);
        }
        i = i + 1;
    }
    let mut value: usize = 0;
    let mut i: usize = from;
    while i < to
        invariant
            from <= i <= to <= chars@.len(),
            text == chars@.subrange(from as int, to as int),
            all_digits(text),
            value == decimal_value(text.take(i - from)),
        decreases to - i,
    {
        let ghost longer = text.take(i - from + 1);
        proof {
            assert(longer.drop_last() =~= text.take(i - from));
            lemma_decimal_value_grows(text, i - from + 1);
        }
        let digit = ((chars[i] as u32) - ('0' as u32)) as usize;
        match value.checked_mul(10) {
            None => {
                return Err(DimensionFault::TooLarge);
            },
            Some(tens) => match tens.checked_add(digit) {
                None => {
                    return Err(DimensionFault::TooLarge);
                },
                Some(next) => {
                    value = next;
                },
            },
        }
        i = i + 1;
    }
    assert(text.take(to - from) =~= text);
    Ok(value)
}

/// Reads `text` as a dimension: a number in decimal digits that fits in a `usize`.
pub fn parse_dimension(text: &str) -> (r: Result<usize, DimensionFault>)
    ensures
        match r {
            Ok(n) => dimension(text@) == Ok::<nat, DimensionFault>(n as nat),
            Err(fault) => dimension(text@) == Err::<nat, DimensionFault>(fault),
        },
{
    let chars = to_chars(text);
    assert(chars@.subrange(0, chars@.len() as int) =~= text@);
    dimension_of(&chars, 0, chars.len())
}

/// Whether `d` is one of the names of the integer types.
pub open spec fn is_integer_token(d: Seq<char>) -> bool {
    ||| d == "I8"@
    ||| d == "I16"@
    ||| d == "I32"@
    ||| d == "I64"@
    ||| d == "I128"@
    ||| d == "U8"@
    ||| d == "U16"@
    ||| d == "U32"@
    ||| d == "U64"@
    ||| d == "U128"@
}

/// The type that `d` names, if `d` is the name of one of the primitive types.
pub open spec fn primitive(d: Seq<char>) -> Option<FieldTypeView> {
    if d == "String"@ {
        Some(FieldTypeView::String)
    } else if is_integer_token(d) {
        Some(FieldTypeView::Integer)
    } else if d == "F64"@ {
        Some(FieldTypeView::Float)
    } else if d == "Boolean"@ {
        Some(FieldTypeView::Boolean)
    } else if d == "ID"@ {
        Some(FieldTypeView::ID)
    } else {
        None
    }
}

/// The descriptor of the elements, if `d` has the shape `Array(..)`.
pub open spec fn array_element(d: Seq<char>) -> Option<Seq<char>> {
    enclosed(d, "Array("@, ")"@)
}

/// The text of the dimension, if `d` has the shape `Vector<..>`.
pub open spec fn vector_dimension(d: Seq<char>) -> Option<Seq<char>> {
    enclosed(d, "Vector<"@, ">"@)
}

/// The type that the descriptor `d` describes. The name of a primitive type describes that
/// type; `Array(..)` an array of what its inside describes; `Vector<..>` a vector of the
/// dimension that its inside writes, and an error if it writes none; and every other text
/// describes the type of that name.
pub open spec fn resolve(d: Seq<char>) -> Result<FieldTypeView, ErrorView>
    decreases d.len(),
{
    if let Some(t) = primitive(d) {
        Ok(t)
    } else if let Some(element) = array_element(d) {
        proof {
            reveal_strlit("Array(");
        }
        match resolve(element) {
            Ok(t) => Ok(FieldTypeView::Array(Box::new(t))),
            Err(e) => Err(e),
        }
    } else if let Some(text) = vector_dimension(d) {
        match dimension(text) {
            Ok(n) => Ok(FieldTypeView::Vector(n)),
            Err(fault) => Err(ErrorView::InvalidDimension { text, fault }),
        }
    } else {
        Ok(FieldTypeView::Custom(d))
    }
}

/// Reveals what the names of the primitive types hold.
proof fn reveal_tokens()
    ensures
        "String"@ == seq!['S', 't', 'r', 'i', 'n', 'g'],
        "I8"@ == seq!['I', '8'],
        "I16"@ == seq!['I', '1', '6'],
        "I32"@ == seq!['I', '3', '2'],
        "I64"@ == seq!['I', '6', '4'],
        "I128"@ == seq!['I', '1', '2', '8'],
        "U8"@ == seq!['U', '8'],
        "U16"@ == seq!['U', '1', '6'],
        "U32"@ == seq!['U', '3', '2'],
        "U64"@ == seq!['U', '6', '4'],
        "U128"@ == seq!['U', '1', '2', '8'],
        "F64"@ == seq!['F', '6', '4'],
        "Boolean"@ == seq!['B', 'o', 'o', 'l', 'e', 'a', 'n'],
        "ID"@ == seq!['I', 'D'],
        "Array("@ == seq!['A', 'r', 'r', 'a', 'y', '('],
        ")"@ == seq![')'],
        "Vector<"@ == seq!['V', 'e', 'c', 't', 'o', 'r', '<'],
        ">"@ == seq!['>'],
{
    reveal_strlit("String");
    reveal_strlit("I8");
    reveal_strlit("I16");
    reveal_strlit("I32");
    reveal_strlit("I64");
    reveal_strlit("I128");
    reveal_strlit("U8");
    reveal_strlit("U16");
    reveal_strlit("U32");
    reveal_strlit("U64");
    reveal_strlit("U128");
    reveal_strlit("F64");
    reveal_strlit("Boolean");
    reveal_strlit("ID");
    reveal_strlit("Array(");
    reveal_strlit(")");
    reveal_strlit("Vector<");
    reveal_strlit(">");
}

/// Every name of a primitive type describes its type: `String` the strings, each of the ten
/// names of the integer types the integers, `F64` the floating-point numbers, `Boolean` the
/// truth values and `ID` the identifiers. No other text is the name of a primitive type.
pub proof fn lemma_resolve_primitive()
    ensures
        resolve("String"@) == Ok::<FieldTypeView, ErrorView>(FieldTypeView::String),
        resolve("I8"@) == Ok::<FieldTypeView, ErrorView>(FieldTypeView::Integer),
        resolve("I16"@) == Ok::<FieldTypeView, ErrorView>(FieldTypeView::Integer),
        resolve("I32"@) == Ok::<FieldTypeView, ErrorView>(FieldTypeView::Integer),
        resolve("I64"@) == Ok::<FieldTypeView, ErrorView>(FieldTypeView::Integer),
        resolve("I128"@) == Ok::<FieldTypeView, ErrorView>(FieldTypeView::Integer),
        resolve("U8"@) == Ok::<FieldTypeView, ErrorView>(FieldTypeView::Integer),
        resolve("U16"@) == Ok::<FieldTypeView, ErrorView>(FieldTypeView::Integer),
        resolve("U32"@) == Ok::<FieldTypeView, ErrorView>(FieldTypeView::Integer),
        resolve("U64"@) == Ok::<FieldTypeView, ErrorView>(FieldTypeView::Integer),
        resolve("U128"@) == Ok::<FieldTypeView, ErrorView>(FieldTypeView::Integer),
        resolve("F64"@) == Ok::<FieldTypeView, ErrorView>(FieldTypeView::Float),
        resolve("Boolean"@) == Ok::<FieldTypeView, ErrorView>(FieldTypeView::Boolean),
        resolve("ID"@) == Ok::<FieldTypeView, ErrorView>(FieldTypeView::ID),
        forall|d: Seq<char>| #[trigger]
            primitive(d) is Some <==> d == "String"@ || is_integer_token(d) || d == "F64"@ || d
                == "Boolean"@ || d == "ID"@,
        forall|d: Seq<char>| #[trigger]
            primitive(d) is Some ==> resolve(d) == Ok::<FieldTypeView, ErrorView>(
                primitive(d)->0,
            ),
{
    reveal_tokens();
}

/// A descriptor that is the name of no primitive type and has neither the shape `Array(..)`
/// nor the shape `Vector<..>` describes the type of that name, whatever it holds.
pub proof fn lemma_resolve_custom(d: Seq<char>)
    requires
        primitive(d) is None,
        array_element(d) is None,
        vector_dimension(d) is None,
    ensures
        resolve(d) == Ok::<FieldTypeView, ErrorView>(FieldTypeView::Custom(d)),
{
}

/// A descriptor describes nothing only where a dimension is none: the error names a text
/// that is no dimension, and the fault of that text.
pub proof fn lemma_resolve_error(d: Seq<char>)
    ensures
        match resolve(d) {
            Ok(_) => true,
            Err(ErrorView::InvalidDimension { text, fault }) => dimension(text) == Err::<
                nat,
                DimensionFault,
            >(fault),
        },
    decreases d.len(),
{
    if primitive(d) is None {
        if let Some(element) = array_element(d) {
            reveal_tokens();
            lemma_resolve_error(element);
        }
    }
}

/// An array of what `r` describes, and the error of `r` if it describes nothing.
pub open spec fn array_of(r: Result<FieldTypeView, ErrorView>) -> Result<
    FieldTypeView,
    ErrorView,
> {
    match r {
        Ok(t) => Ok(FieldTypeView::Array(Box::new(t))),
        Err(e) => Err(e),
    }
}

/// `Array(d)` describes an array of what `d` describes, whatever `d` is.
pub proof fn lemma_resolve_array(d: Seq<char>)
    ensures
        resolve("Array("@ + d + ")"@) == array_of(resolve(d)),
{
    reveal_tokens();
    let whole = "Array("@ + d + ")"@;
    assert(whole.take(6) =~= "Array("@);
    assert(whole.skip(whole.len() - 1) =~= ")"@);
    assert(array_element(whole) == Some(d));
}

/// The descriptor `d` inside `depth` pairs of `Array(` and `)`.
pub open spec fn nested_array(d: Seq<char>, depth: nat) -> Seq<char>
    decreases depth,
{
    if depth == 0 {
        d
    } else {
        "Array("@ + nested_array(d, (depth - 1) as nat) + ")"@
    }
}

/// What `r` describes, as the elements of arrays nested `depth` deep.
pub open spec fn nested_array_of(r: Result<FieldTypeView, ErrorView>, depth: nat) -> Result<
    FieldTypeView,
    ErrorView,
>
    decreases depth,
{
    if depth == 0 {
        r
    } else {
        array_of(nested_array_of(r, (depth - 1) as nat))
    }
}

/// Arrays may be nested to any depth: `d` inside `depth` pairs of `Array(` and `)` describes
/// arrays that deep of what `d` describes.
pub proof fn lemma_resolve_nested_array(d: Seq<char>, depth: nat)
    ensures
        resolve(nested_array(d, depth)) == nested_array_of(resolve(d), depth),
    decreases depth,
{
    if depth > 0 {
        lemma_resolve_nested_array(d, (depth - 1) as nat);
        lemma_resolve_array(nested_array(d, (depth - 1) as nat));
    }
}

/// `Vector<text>` describes a vector of the dimension that `text` writes. If `text` is
/// decimal digits, at least one, that write a number which fits in a `usize`, that number
/// is the dimension; with any other `text` the descriptor describes nothing.
pub proof fn lemma_resolve_vector(text: Seq<char>)
    ensures
        resolve("Vector<"@ + text + ">"@) == match dimension(text) {
            Ok(n) => Ok::<FieldTypeView, ErrorView>(FieldTypeView::Vector(n)),
            Err(fault) => Err(ErrorView::InvalidDimension { text, fault }),
        },
        text.len() > 0 && all_digits(text) && decimal_value(text) <= usize::MAX ==> resolve(
            "Vector<"@ + text + ">"@,
        ) == Ok::<FieldTypeView, ErrorView>(FieldTypeView::Vector(decimal_value(text))),
        !all_digits(text) ==> resolve("Vector<"@ + text + ">"@) is Err,
{
    reveal_tokens();
    let whole = "Vector<"@ + text + ">"@;
    assert(whole.take(7) =~= "Vector<"@);
    assert(whole.skip(whole.len() - 1) =~= ">"@);
    assert(vector_dimension(whole) == Some(text));
}

/// `Vector<..>` around the decimal digits of a number that fits in a `usize` describes a
/// vector of that number as its dimension.
pub proof fn lemma_resolve_vector_of(n: nat)
    requires
        n <= usize::MAX,
    ensures
        resolve("Vector<"@ + decimal(n) + ">"@) == Ok::<FieldTypeView, ErrorView>(
            FieldTypeView::Vector(n),
        ),
{
    lemma_decimal_reads_back(n);
    lemma_resolve_vector(decimal(n));
}

fn integer_token_at(chars: &Vec<char>, from: usize, to: usize) -> (b: bool)
    requires
        from <= to <= chars@.len(),
    ensures
        b == is_integer_token(chars@.subrange(from as int, to as int)),
{
    range_is(chars, from, to, "I8") || range_is(chars, from, to, "I16")
        || range_is(chars, from, to, "I32") || range_is(chars, from, to, "I64")
        || range_is(chars, from, to, "I128") || range_is(chars, from, to, "U8")
        || range_is(chars, from, to, "U16") || range_is(chars, from, to, "U32")
        || range_is(chars, from, to, "U64") || range_is(chars, from, to, "U128")
}

fn primitive_of(chars: &Vec<char>, from: usize, to: usize) -> (r: Option<FieldType>)
    requires
        from <= to <= chars@.len(),
    ensures
        match r {
            Some(t) => primitive(chars@.subrange(from as int, to as int)) == Some(t@),
            None => primitive(chars@.subrange(from as int, to as int)) is None,
        },
{
    if range_is(chars, from, to, "String") {
        Some(FieldType::String)
    } else if integer_token_at(chars, from, to) {
        Some(FieldType::Integer)
    } else if range_is(chars, from, to, "F64") {
        Some(FieldType::Float)
    } else if range_is(chars, from, to, "Boolean") {
        Some(FieldType::Boolean)
    } else if range_is(chars, from, to, "ID") {
        Some(FieldType::ID)
    } else {
        None
    }
}

fn resolve_range(chars: &Vec<char>, from: usize, to: usize) -> (r: Result<FieldType, Error>)
    requires
        from <= to <= chars@.len(),
    ensures
        match r {
            Ok(t) => resolve(chars@.subrange(from as int, to as int)) == Ok::<
                FieldTypeView,
                ErrorView,
            >(t@),
            Err(e) => resolve(chars@.subrange(from as int, to as int)) == Err::<
                FieldTypeView,
                ErrorView,
            >(e@),
        },
    decreases to - from,
{
    if let Some(t) = primitive_of(chars, from, to) {
        return Ok(t);
    }
    if let Some((a, b)) = enclosed_range(chars, from, to, "Array(", ")") {
        proof {
            reveal_strlit("Array(");
        }
        return match resolve_range(chars, a, b) {
            Ok(t) => Ok(FieldType::Array(Box::new(t))),
            Err(e) => Err(e),
        };
    }
    if let Some((a, b)) = enclosed_range(chars, from, to, "Vector<", ">") {
        return match dimension_of(chars, a, b) {
            Ok(n) => Ok(FieldType::Vector(n)),
            Err(fault) => Err(Error::InvalidDimension { text: string_of(chars, a, b), fault }),
        };
    }
    Ok(FieldType::Custom(string_of(chars, from, to)))
}

/// Reads a type descriptor. It fails only where the descriptor, or what is nested in it, is
/// a `Vector<..>` whose dimension is none; any text that it does not know describes the type
/// of that name.
pub fn parse_field_type(type_str: &str) -> (r: Result<FieldType, Error>)
    ensures
        match r {
            Ok(t) => resolve(type_str@) == Ok::<FieldTypeView, ErrorView>(t@),
            Err(e) => resolve(type_str@) == Err::<FieldTypeView, ErrorView>(e@),
        },
{
    let chars = to_chars(type_str);
    assert(chars@.subrange(0, chars@.len() as int) =~= type_str@);
    resolve_range(&chars, 0, chars.len())
}

/// The entries that `items` give, by name: each item gives one entry, and of two items that
/// give the same name the later one stays. The first item that gives an error gives the
/// error of the whole.
pub open spec fn gathered<I, T>(
    items: Seq<I>,
    entry: spec_fn(I) -> Result<(Seq<char>, T), ErrorView>,
) -> Result<Seq<(Seq<char>, T)>, ErrorView>
    decreases items.len(),
{
    if items.len() == 0 {
        Ok(Seq::empty())
    } else {
        match gathered(items.drop_last(), entry) {
            Err(e) => Err(e),
            Ok(before) => match entry(items.last()) {
                Err(e) => Err(e),
                Ok((name, value)) => Ok(inserted(before, name, value)),
            },
        }
    }
}

/// An error among the first `k` items is the error of the whole.
pub proof fn lemma_gathered_error_stays<I, T>(
    items: Seq<I>,
    entry: spec_fn(I) -> Result<(Seq<char>, T), ErrorView>,
    k: int,
)
    requires
        0 <= k <= items.len(),
        gathered(items.take(k), entry) is Err,
    ensures
        gathered(items, entry) == gathered(items.take(k), entry),
    decreases items.len() - k,
{
    if k == items.len() {
        assert(items.take(k) =~= items);
    } else {
        assert(items.take(k + 1).drop_last() =~= items.take(k));
        lemma_gathered_error_stays(items, entry, k + 1);
    }
}

/// The entries that items give stand in the strict order of their names.
pub proof fn lemma_gathered_ordered<I, T>(
    items: Seq<I>,
    entry: spec_fn(I) -> Result<(Seq<char>, T), ErrorView>,
)
    ensures
        match gathered(items, entry) {
            Ok(entries) => strictly_ordered(entries),
            Err(_) => true,
        },
    decreases items.len(),
{
    if items.len() > 0 {
        lemma_gathered_ordered(items.drop_last(), entry);
        if let Ok(before) = gathered(items.drop_last(), entry) {
            if let Ok((name, value)) = entry(items.last()) {
                lemma_inserted_ordered(before, name, value);
            }
        }
    }
}

/// The entry that a reported property gives: its name in separated lowercase form, with the
/// type that its descriptor describes.
pub open spec fn property_entry(property: (Seq<char>, Seq<char>)) -> Result<
    (Seq<char>, FieldTypeView),
    ErrorView,
> {
    match resolve(property.1) {
        Ok(t) => Ok((snake_case(property.0), t)),
        Err(e) => Err(e),
    }
}

/// The properties that the reported `properties` give.
pub open spec fn converted(properties: DescriptorsView) -> Result<PropertiesView, ErrorView> {
    gathered(properties, |property: (Seq<char>, Seq<char>)| property_entry(property))
}

/// Converts reported properties: each name to its separated lowercase form, each descriptor
/// to the type that it describes.
pub fn convert_properties(properties: &DescriptorMap) -> (r: Result<PropertyMap, Error>)
    ensures
        match r {
            Ok(m) => converted(properties@) == Ok::<PropertiesView, ErrorView>(m@),
            Err(e) => converted(properties@) == Err::<PropertiesView, ErrorView>(e@),
        },
{
    let ghost entry = |property: (Seq<char>, Seq<char>)| property_entry(property);
    let mut result: PropertyMap = OrderedMap::new();
    let n = properties.len();
    let mut i: usize = 0;
    while i < n
        invariant
            i <= n == properties@.len(),
            entry == |property: (Seq<char>, Seq<char>)| property_entry(property),
            gathered(properties@.take(i as int), entry) == Ok::<PropertiesView, ErrorView>(
                result@,
            ),
        decreases n - i,
    {
        let (name, descriptor) = properties.entry(i);
        proof {
            assert(properties@.take(i + 1).drop_last() =~= properties@.take(i as int));
        }
        match parse_field_type(descriptor.as_str()) {
            Ok(t) => {
                result.insert(to_snake_case(name.as_str()), t);
            },
            Err(e) => {
                proof {
                    lemma_gathered_error_stays(properties@, entry, i + 1);
                }
                return Err(e);
            },
        }
        i = i + 1;
    }
    assert(properties@.take(i as int) =~= properties@);
    Ok(result)
}

/// The entry that a reported node gives.
pub open spec fn node_entry(info: NodeInfoView) -> Result<
    (Seq<char>, NodeDefinitionView),
    ErrorView,
> {
    match converted(info.properties) {
        Ok(properties) => Ok((info.name, NodeDefinitionView { name: info.name, properties })),
        Err(e) => Err(e),
    }
}

/// The entry that a reported vector gives.
pub open spec fn vector_entry(info: VectorInfoView) -> Result<
    (Seq<char>, VectorDefinitionView),
    ErrorView,
> {
    match converted(info.properties) {
        Ok(properties) => Ok((info.name, VectorDefinitionView { name: info.name, properties })),
        Err(e) => Err(e),
    }
}

/// The entry that a reported edge gives. Its two ends are taken as they are.
pub open spec fn edge_entry(info: EdgeInfoView) -> Result<
    (Seq<char>, EdgeDefinitionView),
    ErrorView,
> {
    match converted(info.properties) {
        Ok(properties) => Ok(
            (
                info.name,
                EdgeDefinitionView {
                    name: info.name,
                    from_node: info.from,
                    to_node: info.to,
                    properties,
                },
            ),
        ),
        Err(e) => Err(e),
    }
}

/// What a query is said to return: the one field by its name, and any other number of
/// fields as their names between braces.
pub open spec fn returns_text(fields: Seq<Seq<char>>) -> Seq<char> {
    if fields.len() == 1 {
        fields[0]
    } else {
        "{ "@ + joined(fields, ", "@) + " }"@
    }
}

/// The entry that a reported query gives.
pub open spec fn query_entry(info: QueryInfoView) -> Result<
    (Seq<char>, QueryDefinitionView),
    ErrorView,
> {
    match converted(info.parameters) {
        Ok(parameters) => Ok(
            (
                info.name,
                QueryDefinitionView {
                    name: info.name,
                    parameters,
                    returns: returns_text(info.returns),
                    description: None,
                },
            ),
        ),
        Err(e) => Err(e),
    }
}

/// The nodes that the reported nodes give, by name.
pub open spec fn nodes_from(infos: Seq<NodeInfoView>) -> Result<
    Seq<(Seq<char>, NodeDefinitionView)>,
    ErrorView,
> {
    gathered(infos, |info: NodeInfoView| node_entry(info))
}

/// The vectors that the reported vectors give, by name.
pub open spec fn vectors_from(infos: Seq<VectorInfoView>) -> Result<
    Seq<(Seq<char>, VectorDefinitionView)>,
    ErrorView,
> {
    gathered(infos, |info: VectorInfoView| vector_entry(info))
}

/// The edges that the reported edges give, by name.
pub open spec fn edges_from(infos: Seq<EdgeInfoView>) -> Result<
    Seq<(Seq<char>, EdgeDefinitionView)>,
    ErrorView,
> {
    gathered(infos, |info: EdgeInfoView| edge_entry(info))
}

/// The queries that the reported queries give, by name.
pub open spec fn queries_from(infos: Seq<QueryInfoView>) -> Result<
    Seq<(Seq<char>, QueryDefinitionView)>,
    ErrorView,
> {
    gathered(infos, |info: QueryInfoView| query_entry(info))
}

/// The schema that a report gives. Of the errors that its nodes, vectors, edges and queries
/// give, in this order, the first is the error of the whole.
pub open spec fn schema_from(report: IntrospectionResponseView) -> Result<
    HelixSchemaView,
    ErrorView,
> {
    match nodes_from(report.schema.nodes) {
        Err(e) => Err(e),
        Ok(nodes) => match vectors_from(report.schema.vectors) {
            Err(e) => Err(e),
            Ok(vectors) => match edges_from(report.schema.edges) {
                Err(e) => Err(e),
                Ok(edges) => match queries_from(report.queries) {
                    Err(e) => Err(e),
                    Ok(queries) => Ok(HelixSchemaView { nodes, vectors, queries, edges }),
                },
            },
        },
    }
}

/// The schema that a report gives has, in each kind, its entries in the strict order of
/// their names, so that no name stands twice in one kind.
pub proof fn lemma_schema_from_well_formed(report: IntrospectionResponseView)
    ensures
        match schema_from(report) {
            Ok(schema) => well_formed(schema),
            Err(_) => true,
        },
{
    lemma_gathered_ordered(report.schema.nodes, |info: NodeInfoView| node_entry(info));
    lemma_gathered_ordered(report.schema.vectors, |info: VectorInfoView| vector_entry(info));
    lemma_gathered_ordered(report.schema.edges, |info: EdgeInfoView| edge_entry(info));
    lemma_gathered_ordered(report.queries, |info: QueryInfoView| query_entry(info));
}

/// Says what a query returns.
pub fn describe_returns(fields: &Vec<String>) -> (r: String)
    ensures
        r@ == returns_text(texts(fields@)),
{
    if fields.len() == 1 {
        fields[0].clone()
    } else {
        let mut r = String::from_str("{ ");
        push_joined(&mut r, fields, ", ");
        r.append(" }");
        r
    }
}

fn nodes_of(infos: &Vec<NodeInfo>) -> (r: Result<OrderedMap<NodeDefinition>, Error>)
    ensures
        match r {
            Ok(m) => nodes_from(infos@.map_values(|n: NodeInfo| n@)) == Ok::<
                Seq<(Seq<char>, NodeDefinitionView)>,
                ErrorView,
            >(m@),
            Err(e) => nodes_from(infos@.map_values(|n: NodeInfo| n@)) == Err::<
                Seq<(Seq<char>, NodeDefinitionView)>,
                ErrorView,
            >(e@),
        },
{
    let ghost items = infos@.map_values(|n: NodeInfo| n@);
    let ghost entry = |info: NodeInfoView| node_entry(info);
    let mut result: OrderedMap<NodeDefinition> = OrderedMap::new();
    let mut i: usize = 0;
    while i < infos.len()
        invariant
            i <= infos@.len(),
            items == infos@.map_values(|n: NodeInfo| n@),
            entry == |info: NodeInfoView| node_entry(info),
            gathered(items.take(i as int), entry) == Ok::<
                Seq<(Seq<char>, NodeDefinitionView)>,
                ErrorView,
            >(result@),
        decreases infos@.len() - i,
    {
        let info = &infos[i];
        proof {
            assert(items.take(i + 1).drop_last() =~= items.take(i as int));
        }
        match convert_properties(&info.properties) {
            Ok(properties) => {
                result.insert(info.name.clone(), NodeDefinition { name: info.name.clone(), properties });
            },
            Err(e) => {
                proof {
                    lemma_gathered_error_stays(items, entry, i + 1);
                }
                return Err(e);
            },
        }
        i = i + 1;
    }
    assert(items.take(i as int) =~= items);
    Ok(result)
}

fn vectors_of(infos: &Vec<VectorInfo>) -> (r: Result<OrderedMap<VectorDefinition>, Error>)
    ensures
        match r {
            Ok(m) => vectors_from(infos@.map_values(|v: VectorInfo| v@)) == Ok::<
                Seq<(Seq<char>, VectorDefinitionView)>,
                ErrorView,
            >(m@),
            Err(e) => vectors_from(infos@.map_values(|v: VectorInfo| v@)) == Err::<
                Seq<(Seq<char>, VectorDefinitionView)>,
                ErrorView,
            >(e@),
        },
{
    let ghost items = infos@.map_values(|v: VectorInfo| v@);
    let ghost entry = |info: VectorInfoView| vector_entry(info);
    let mut result: OrderedMap<VectorDefinition> = OrderedMap::new();
    let mut i: usize = 0;
    while i < infos.len()
        invariant
            i <= infos@.len(),
            items == infos@.map_values(|v: VectorInfo| v@),
            entry == |info: VectorInfoView| vector_entry(info),
            gathered(items.take(i as int), entry) == Ok::<
                Seq<(Seq<char>, VectorDefinitionView)>,
                ErrorView,
            >(result@),
        decreases infos@.len() - i,
    {
        let info = &infos[i];
        proof {
            assert(items.take(i + 1).drop_last() =~= items.take(i as int));
        }
        match convert_properties(&info.properties) {
            Ok(properties) => {
                result.insert(
                    info.name.clone(),
                    VectorDefinition { name: info.name.clone(), properties },
                );
            },
            Err(e) => {
                proof {
                    lemma_gathered_error_stays(items, entry, i + 1);
                }
                return Err(e);
            },
        }
        i = i + 1;
    }
    assert(items.take(i as int) =~= items);
    Ok(result)
}

fn edges_of(infos: &Vec<EdgeInfo>) -> (r: Result<OrderedMap<EdgeDefinition>, Error>)
    ensures
        match r {
            Ok(m) => edges_from(infos@.map_values(|e: EdgeInfo| e@)) == Ok::<
                Seq<(Seq<char>, EdgeDefinitionView)>,
                ErrorView,
            >(m@),
            Err(e) => edges_from(infos@.map_values(|e: EdgeInfo| e@)) == Err::<
                Seq<(Seq<char>, EdgeDefinitionView)>,
                ErrorView,
            >(e@),
        },
{
    let ghost items = infos@.map_values(|e: EdgeInfo| e@);
    let ghost entry = |info: EdgeInfoView| edge_entry(info);
    let mut result: OrderedMap<EdgeDefinition> = OrderedMap::new();
    let mut i: usize = 0;
    while i < infos.len()
        invariant
            i <= infos@.len(),
            items == infos@.map_values(|e: EdgeInfo| e@),
            entry == |info: EdgeInfoView| edge_entry(info),
            gathered(items.take(i as int), entry) == Ok::<
                Seq<(Seq<char>, EdgeDefinitionView)>,
                ErrorView,
            >(result@),
        decreases infos@.len() - i,
    {
        let info = &infos[i];
        proof {
            assert(items.take(i + 1).drop_last() =~= items.take(i as int));
        }
        match convert_properties(&info.properties) {
            Ok(properties) => {
                result.insert(
                    info.name.clone(),
                    EdgeDefinition {
                        name: info.name.clone(),
                        from_node: info.from.clone(),
                        to_node: info.to.clone(),
                        properties,
                    },
                );
            },
            Err(e) => {
                proof {
                    lemma_gathered_error_stays(items, entry, i + 1);
                }
                return Err(e);
            },
        }
        i = i + 1;
    }
    assert(items.take(i as int) =~= items);
    Ok(result)
}

fn queries_of(infos: &Vec<QueryInfo>) -> (r: Result<OrderedMap<QueryDefinition>, Error>)
    ensures
        match r {
            Ok(m) => queries_from(infos@.map_values(|q: QueryInfo| q@)) == Ok::<
                Seq<(Seq<char>, QueryDefinitionView)>,
                ErrorView,
            >(m@),
            Err(e) => queries_from(infos@.map_values(|q: QueryInfo| q@)) == Err::<
                Seq<(Seq<char>, QueryDefinitionView)>,
                ErrorView,
            >(e@),
        },
{
    let ghost items = infos@.map_values(|q: QueryInfo| q@);
    let ghost entry = |info: QueryInfoView| query_entry(info);
    let mut result: OrderedMap<QueryDefinition> = OrderedMap::new();
    let mut i: usize = 0;
    while i < infos.len()
        invariant
            i <= infos@.len(),
            items == infos@.map_values(|q: QueryInfo| q@),
            entry == |info: QueryInfoView| query_entry(info),
            gathered(items.take(i as int), entry) == Ok::<
                Seq<(Seq<char>, QueryDefinitionView)>,
                ErrorView,
            >(result@),
        decreases infos@.len() - i,
    {
        let info = &infos[i];
        proof {
            assert(items.take(i + 1).drop_last() =~= items.take(i as int));
        }
        match convert_properties(&info.parameters) {
            Ok(parameters) => {
                result.insert(
                    info.name.clone(),
                    QueryDefinition {
                        name: info.name.clone(),
                        parameters,
                        returns: describe_returns(&info.returns),
                        description: None,
                    },
                );
            },
            Err(e) => {
                proof {
                    lemma_gathered_error_stays(items, entry, i + 1);
                }
                return Err(e);
            },
        }
        i = i + 1;
    }
    assert(items.take(i as int) =~= items);
    Ok(result)
}

/// Builds the schema that a report describes. It fails only where a descriptor of the
/// report is a `Vector<..>` whose dimension is none.
pub fn build_schema(report: &IntrospectionResponse) -> (r: Result<HelixSchema, Error>)
    ensures
        match r {
            Ok(schema) => schema_from(report@) == Ok::<HelixSchemaView, ErrorView>(schema@)
                && well_formed(schema@),
            Err(e) => schema_from(report@) == Err::<HelixSchemaView, ErrorView>(e@),
        },
{
    let nodes = match nodes_of(&report.schema.nodes) {
        Ok(nodes) => nodes,
        Err(e) => {
            return Err(e);
        },
    };
    let vectors = match vectors_of(&report.schema.vectors) {
        Ok(vectors) => vectors,
        Err(e) => {
            return Err(e);
        },
    };
    let edges = match edges_of(&report.schema.edges) {
        Ok(edges) => edges,
        Err(e) => {
            return Err(e);
        },
    };
    let queries = match queries_of(&report.queries) {
        Ok(queries) => queries,
        Err(e) => {
            return Err(e);
        },
    };
    proof {
        lemma_schema_from_well_formed(report@);
    }
    Ok(HelixSchema { nodes, vectors, queries, edges })
}

} // verus!
