//! Decoding the language server's responses.
//!
//! Responses arrive as JSON text and are parsed by serde_json; the
//! parsed values are opaque here, so what each trusted wrapper returns
//! is given a name — every accessor is a function of the value alone —
//! and every decision taken on those results (which lines are dropped,
//! which shapes each query helper accepts, which items are skipped) is
//! made by the verified functions below, whose contracts are exact over
//! the composed names.  A decode failure yields an empty/none result,
//! never an error to the caller.

use vstd::prelude::*;

use serde_json::Value;

verus! {

#[verifier::external_type_specification]
#[verifier::external_body]
pub struct ExValue(Value);

/// A position in a document, in line and character offsets.
#[derive(Clone, Copy, PartialEq, Eq, Structural, Debug)]
pub struct Position {
    pub line: u64,
    pub character: u64,
}

/// A range between two positions.
#[derive(Clone, Copy, PartialEq, Eq, Structural, Debug)]
pub struct Range {
    pub start: Position,
    pub end: Position,
}

/// One completion offered at a position.
#[derive(Clone, PartialEq, Eq, Debug)]
pub struct CompletionItem {
    pub label: String,
    pub insert_text: Option<String>,
    pub kind: Option<u64>,
    pub detail: Option<String>,
}

/// Hover information: its contents as raw JSON text, and the range it
/// applies to.
#[derive(Clone, PartialEq, Eq, Debug)]
pub struct Hover {
    pub contents: String,
    pub range: Option<Range>,
}

/// A location in a document.
#[derive(Clone, PartialEq, Eq, Debug)]
pub struct Location {
    pub uri: String,
    pub range: Range,
}

// ---------------------------------------------------------------------
// Names for what serde_json's accessors return.  Each accessor is a
// pure function of the value (objects are ordered maps), so the same
// value always answers alike.
// ---------------------------------------------------------------------

/// What parsing a JSON text yields, if it parses.
pub uninterp spec fn parse_of(s: Seq<char>) -> Option<Value>;

/// The member of an object under a key; `None` off objects.
pub uninterp spec fn get_of(v: Value, key: Seq<char>) -> Option<Value>;

/// The value as an unsigned integer, if it is one.
pub uninterp spec fn as_u64_of(v: Value) -> Option<u64>;

/// The value's characters, if it is a string.
pub uninterp spec fn as_str_of(v: Value) -> Option<Seq<char>>;

/// The value's elements, if it is an array.
pub uninterp spec fn as_array_of(v: Value) -> Option<Seq<Value>>;

/// Is the value JSON null?
pub uninterp spec fn is_null_of(v: Value) -> bool;

/// The value rendered back to JSON text.
pub uninterp spec fn text_of(v: Value) -> Seq<char>;

/// Relies on serde_json::from_str::<Value>: parses one JSON text; a
/// malformed text yields `None`.
#[verifier::external_body]
fn parse_json(s: &str) -> (r: Option<Value>)
    ensures
        r == parse_of(s@),
{
    match serde_json::from_str::<Value>(s) {
        Ok(v) => Some(v),
        Err(_) => None,
    }
}

/// Relies on serde_json's `Value::get`: member lookup on an object,
/// `None` on anything else.
#[verifier::external_body]
fn json_get<'a>(v: &'a Value, key: &str) -> (r: Option<&'a Value>)
    ensures
        match r {
            Some(x) => get_of(*v, key@) == Some(*x),
            None => get_of(*v, key@) is None,
        },
{
    v.get(key)
}

/// Relies on serde_json's `Value::as_u64`.
#[verifier::external_body]
fn json_as_u64(v: &Value) -> (r: Option<u64>)
    ensures
        r == as_u64_of(*v),
{
    v.as_u64()
}

/// Relies on serde_json's `Value::as_str`.
#[verifier::external_body]
fn json_as_str<'a>(v: &'a Value) -> (r: Option<&'a str>)
    ensures
        match r {
            Some(s) => as_str_of(*v) == Some(s@),
            None => as_str_of(*v) is None,
        },
{
    v.as_str()
}

/// Relies on serde_json's `Value::as_array`.
#[verifier::external_body]
fn json_as_array<'a>(v: &'a Value) -> (r: Option<&'a Vec<Value>>)
    ensures
        match r {
            Some(a) => as_array_of(*v) == Some(a@),
            None => as_array_of(*v) is None,
        },
{
    v.as_array()
}

/// Relies on serde_json's `Value::is_null`.
#[verifier::external_body]
fn json_is_null(v: &Value) -> (r: bool)
    ensures
        r == is_null_of(*v),
{
    v.is_null()
}

/// Relies on `<Value as Clone>::clone`: the copy equals the original.
#[verifier::external_body]
fn json_clone(v: &Value) -> (r: Value)
    ensures
        r == *v,
{
    v.clone()
}

/// Relies on serde_json::to_string: renders a value as JSON text;
/// rendering a `Value` cannot fail, so the error arm is dead.
#[verifier::external_body]
fn json_to_text(v: &Value) -> (r: String)
    ensures
        r@ == text_of(*v),
{
    match serde_json::to_string(v) {
        Ok(s) => s,
        Err(_) => String::new(),
    }
}

// ---------------------------------------------------------------------
// Field access over the names.
// ---------------------------------------------------------------------

/// A required unsigned-integer member.
pub open spec fn spec_u64_field(v: Value, key: Seq<char>) -> Option<u64> {
    match get_of(v, key) {
        Some(f) => as_u64_of(f),
        None => None,
    }
}

fn u64_field(v: &Value, key: &str) -> (r: Option<u64>)
    ensures
        r == spec_u64_field(*v, key@),
{
    match json_get(v, key) {
        Some(f) => json_as_u64(f),
        None => None,
    }
}

/// An optional string member: absent or null is `Some(None)`, a string
/// is `Some(Some(..))`, any other shape fails the whole record.
pub open spec fn spec_opt_str_field(v: Value, key: Seq<char>) -> Option<Option<Seq<char>>> {
    match get_of(v, key) {
        None => Some(None),
        Some(f) => {
            if is_null_of(f) {
                Some(None)
            } else {
                match as_str_of(f) {
                    Some(s) => Some(Some(s)),
                    None => None,
                }
            }
        },
    }
}

/// The characters of an optional string.
pub open spec fn str_opt_view(o: Option<String>) -> Option<Seq<char>> {
    match o {
        Some(s) => Some(s@),
        None => None,
    }
}

fn opt_str_field(v: &Value, key: &str) -> (r: Option<Option<String>>)
    ensures
        match r {
            Some(o) => spec_opt_str_field(*v, key@) == Some(str_opt_view(o)),
            None => spec_opt_str_field(*v, key@) is None,
        },
{
    match json_get(v, key) {
        None => Some(None),
        Some(f) => {
            if json_is_null(f) {
                Some(None)
            } else {
                match json_as_str(f) {
                    Some(s) => Some(Some(s.to_owned())),
                    None => None,
                }
            }
        },
    }
}

/// An optional unsigned-integer member, shaped as [`spec_opt_str_field`].
pub open spec fn spec_opt_u64_field(v: Value, key: Seq<char>) -> Option<Option<u64>> {
    match get_of(v, key) {
        None => Some(None),
        Some(f) => {
            if is_null_of(f) {
                Some(None)
            } else {
                match as_u64_of(f) {
                    Some(n) => Some(Some(n)),
                    None => None,
                }
            }
        },
    }
}

fn opt_u64_field(v: &Value, key: &str) -> (r: Option<Option<u64>>)
    ensures
        r == spec_opt_u64_field(*v, key@),
{
    match json_get(v, key) {
        None => Some(None),
        Some(f) => {
            if json_is_null(f) {
                Some(None)
            } else {
                match json_as_u64(f) {
                    Some(n) => Some(Some(n)),
                    None => None,
                }
            }
        },
    }
}

// ---------------------------------------------------------------------
// Record decoding: positions, ranges, completions, hover, locations.
// ---------------------------------------------------------------------

/// A position decodes iff `line` and `character` are numeric members.
pub open spec fn spec_position_of(v: Value) -> Option<Position> {
    match spec_u64_field(v, "line"@) {
        Some(line) => match spec_u64_field(v, "character"@) {
            Some(character) => Some(Position { line, character }),
            None => None,
        },
        None => None,
    }
}

/// Decode a position; see [`spec_position_of`].
pub fn position_from_value(v: &Value) -> (r: Option<Position>)
    ensures
        r == spec_position_of(*v),
{
    let line = match u64_field(v, "line") {
        Some(n) => n,
        None => {
            return None;
        },
    };
    let character = match u64_field(v, "character") {
        Some(n) => n,
        None => {
            return None;
        },
    };
    Some(Position { line, character })
}

/// A range decodes iff `start` and `end` decode as positions.
pub open spec fn spec_range_of(v: Value) -> Option<Range> {
    match get_of(v, "start"@) {
        Some(sf) => match spec_position_of(sf) {
            Some(start) => match get_of(v, "end"@) {
                Some(ef) => match spec_position_of(ef) {
                    Some(end) => Some(Range { start, end }),
                    None => None,
                },
                None => None,
            },
            None => None,
        },
        None => None,
    }
}

/// Decode a range; see [`spec_range_of`].
pub fn range_from_value(v: &Value) -> (r: Option<Range>)
    ensures
        r == spec_range_of(*v),
{
    let start = match json_get(v, "start") {
        Some(f) => match position_from_value(f) {
            Some(p) => p,
            None => {
                return None;
            },
        },
        None => {
            return None;
        },
    };
    let end = match json_get(v, "end") {
        Some(f) => match position_from_value(f) {
            Some(p) => p,
            None => {
                return None;
            },
        },
        None => {
            return None;
        },
    };
    Some(Range { start, end })
}

/// The characters of a completion item's fields, in declaration order.
pub open spec fn completion_view(c: CompletionItem) -> (
    Seq<char>,
    Option<Seq<char>>,
    Option<u64>,
    Option<Seq<char>>,
) {
    (c.label@, str_opt_view(c.insert_text), c.kind, str_opt_view(c.detail))
}

/// A completion item decodes iff `label` is a string member and the
/// optional `insertText`, `kind` and `detail` members are absent, null
/// or of their own shape; any other shape fails the item.
pub open spec fn spec_completion_of(v: Value) -> Option<
    (Seq<char>, Option<Seq<char>>, Option<u64>, Option<Seq<char>>),
> {
    match get_of(v, "label"@) {
        Some(lf) => match as_str_of(lf) {
            Some(label) => match spec_opt_str_field(v, "insertText"@) {
                Some(insert_text) => match spec_opt_u64_field(v, "kind"@) {
                    Some(kind) => match spec_opt_str_field(v, "detail"@) {
                        Some(detail) => Some((label, insert_text, kind, detail)),
                        None => None,
                    },
                    None => None,
                },
                None => None,
            },
            None => None,
        },
        None => None,
    }
}

/// Decode one completion item; see [`spec_completion_of`].
pub fn completion_from_value(v: &Value) -> (r: Option<CompletionItem>)
    ensures
        match r {
            Some(c) => spec_completion_of(*v) == Some(completion_view(c)),
            None => spec_completion_of(*v) is None,
        },
{
    let label = match json_get(v, "label") {
        Some(f) => match json_as_str(f) {
            Some(s) => s.to_owned(),
            None => {
                return None;
            },
        },
        None => {
            return None;
        },
    };
    let insert_text = match opt_str_field(v, "insertText") {
        Some(o) => o,
        None => {
            return None;
        },
    };
    let kind = match opt_u64_field(v, "kind") {
        Some(o) => o,
        None => {
            return None;
        },
    };
    let detail = match opt_str_field(v, "detail") {
        Some(o) => o,
        None => {
            return None;
        },
    };
    Some(CompletionItem { label, insert_text, kind, detail })
}

/// The items of `items[i..]` that decode, in order; failures skipped.
pub open spec fn spec_completions_from(items: Seq<Value>, i: int) -> Seq<
    (Seq<char>, Option<Seq<char>>, Option<u64>, Option<Seq<char>>),
>
    decreases items.len() - i,
{
    if i < 0 || i >= items.len() {
        Seq::empty()
    } else {
        let rest = spec_completions_from(items, i + 1);
        match spec_completion_of(items[i]) {
            Some(c) => seq![c] + rest,
            None => rest,
        }
    }
}

fn completions_from_array(items: &Vec<Value>) -> (r: Vec<CompletionItem>)
    ensures
        r@.map_values(|c: CompletionItem| completion_view(c)) == spec_completions_from(items@, 0),
{
    let mut out: Vec<CompletionItem> = Vec::new();
    let n = items.len();
    for i in 0..n
        invariant
            n == items@.len(),
            spec_completions_from(items@, 0) =~= out@.map_values(
                |c: CompletionItem| completion_view(c),
            ) + spec_completions_from(items@, i as int),
    {
        let ghost prev = out@;
        if let Some(c) = completion_from_value(&items[i]) {
            proof {
                assert(prev.push(c).map_values(|x: CompletionItem| completion_view(x))
                    =~= prev.map_values(|x: CompletionItem| completion_view(x)).push(
                    completion_view(c),
                ));
                assert(prev.map_values(|x: CompletionItem| completion_view(x)) + (seq![
                    completion_view(c),
                ] + spec_completions_from(items@, i + 1)) =~= prev.map_values(
                    |x: CompletionItem| completion_view(x),
                ).push(completion_view(c)) + spec_completions_from(items@, i + 1));
            }
            out.push(c);
        }
    }
    out
}

/// The items of a completion result: a bare array of items, or an
/// object wrapping them under `items`; anything else yields no items,
/// and an item that does not decode is skipped.
pub open spec fn spec_completion_result(v: Value) -> Seq<
    (Seq<char>, Option<Seq<char>>, Option<u64>, Option<Seq<char>>),
> {
    match as_array_of(v) {
        Some(items) => spec_completions_from(items, 0),
        None => match get_of(v, "items"@) {
            Some(f) => match as_array_of(f) {
                Some(items) => spec_completions_from(items, 0),
                None => Seq::empty(),
            },
            None => Seq::empty(),
        },
    }
}

/// Best-effort decode of a completion result; see
/// [`spec_completion_result`].
pub fn completion_from_result(v: &Value) -> (r: Vec<CompletionItem>)
    ensures
        r@.map_values(|c: CompletionItem| completion_view(c)) == spec_completion_result(*v),
{
    match json_as_array(v) {
        Some(items) => completions_from_array(items),
        None => {
            match json_get(v, "items") {
                Some(f) => match json_as_array(f) {
                    Some(items) => completions_from_array(items),
                    None => Vec::new(),
                },
                None => Vec::new(),
            }
        },
    }
}

/// A hover decodes iff the result is not null and carries a
/// `contents` member — kept as raw JSON text — while a present,
/// non-null `range` must decode or the record fails.
pub open spec fn spec_hover_of(v: Value) -> Option<(Seq<char>, Option<Range>)> {
    if is_null_of(v) {
        None
    } else {
        match get_of(v, "contents"@) {
            None => None,
            Some(cf) => {
                let contents = text_of(cf);
                match get_of(v, "range"@) {
                    None => Some((contents, None)),
                    Some(rf) => {
                        if is_null_of(rf) {
                            Some((contents, None))
                        } else {
                            match spec_range_of(rf) {
                                Some(range) => Some((contents, Some(range))),
                                None => None,
                            }
                        }
                    },
                }
            },
        }
    }
}

/// Best-effort decode of a hover result; see [`spec_hover_of`].
pub fn hover_from_result(v: &Value) -> (r: Option<Hover>)
    ensures
        match r {
            Some(h) => spec_hover_of(*v) == Some((h.contents@, h.range)),
            None => spec_hover_of(*v) is None,
        },
{
    if json_is_null(v) {
        return None;
    }
    let contents = match json_get(v, "contents") {
        Some(f) => json_to_text(f),
        None => {
            return None;
        },
    };
    let range = match json_get(v, "range") {
        None => None,
        Some(f) => {
            if json_is_null(f) {
                None
            } else {
                match range_from_value(f) {
                    Some(r) => Some(r),
                    None => {
                        return None;
                    },
                }
            }
        },
    };
    Some(Hover { contents, range })
}

/// A location decodes iff `uri` is a string member and `range`
/// decodes.
pub open spec fn spec_location_of(v: Value) -> Option<(Seq<char>, Range)> {
    match get_of(v, "uri"@) {
        Some(uf) => match as_str_of(uf) {
            Some(uri) => match get_of(v, "range"@) {
                Some(rf) => match spec_range_of(rf) {
                    Some(range) => Some((uri, range)),
                    None => None,
                },
                None => None,
            },
            None => None,
        },
        None => None,
    }
}

fn location_from_value(v: &Value) -> (r: Option<Location>)
    ensures
        match r {
            Some(loc) => spec_location_of(*v) == Some((loc.uri@, loc.range)),
            None => spec_location_of(*v) is None,
        },
{
    let uri = match json_get(v, "uri") {
        Some(f) => match json_as_str(f) {
            Some(s) => s.to_owned(),
            None => {
                return None;
            },
        },
        None => {
            return None;
        },
    };
    let range = match json_get(v, "range") {
        Some(f) => match range_from_value(f) {
            Some(r) => r,
            None => {
                return None;
            },
        },
        None => {
            return None;
        },
    };
    Some(Location { uri, range })
}

/// A definition result decodes iff the result is not null and is a
/// single location, or an array whose first element is one; an empty
/// array, an undecodable first element, or any other shape is no
/// definition.
pub open spec fn spec_definition_of(v: Value) -> Option<(Seq<char>, Range)> {
    if is_null_of(v) {
        None
    } else {
        match spec_location_of(v) {
            Some(loc) => Some(loc),
            None => match as_array_of(v) {
                Some(arr) => {
                    if arr.len() > 0 {
                        spec_location_of(arr[0])
                    } else {
                        None
                    }
                },
                None => None,
            },
        }
    }
}

/// Best-effort decode of a definition result; see
/// [`spec_definition_of`].
pub fn definition_from_result(v: &Value) -> (r: Option<Location>)
    ensures
        match r {
            Some(loc) => spec_definition_of(*v) == Some((loc.uri@, loc.range)),
            None => spec_definition_of(*v) is None,
        },
{
    if json_is_null(v) {
        return None;
    }
    if let Some(loc) = location_from_value(v) {
        return Some(loc);
    }
    match json_as_array(v) {
        Some(arr) => {
            if arr.len() > 0 {
                location_from_value(&arr[0])
            } else {
                None
            }
        },
        None => None,
    }
}

// ---------------------------------------------------------------------
// The reader task's line filter.
// ---------------------------------------------------------------------

/// What the reader task does with one line of server output.
pub enum LineAction {
    /// A well-formed success response: deliver `(id, result)` to the
    /// waiter with that id.
    Deliver(u64, Value),
    /// A malformed line, an error response, or a response without a
    /// result: dropped.
    Ignore,
}

/// A line is delivered iff it parses, carries a string `jsonrpc`
/// member and a numeric `id`, and has a non-null `result`; what is
/// delivered is that id with that result.
pub open spec fn spec_line_action(s: Seq<char>) -> Option<(u64, Value)> {
    match parse_of(s) {
        None => None,
        Some(v) => {
            let jsonrpc_ok = match get_of(v, "jsonrpc"@) {
                Some(j) => as_str_of(j) is Some,
                None => false,
            };
            if !jsonrpc_ok {
                None
            } else {
                match spec_u64_field(v, "id"@) {
                    None => None,
                    Some(id) => match get_of(v, "result"@) {
                        None => None,
                        Some(res) => {
                            if is_null_of(res) {
                                None
                            } else {
                                Some((id, res))
                            }
                        },
                    },
                }
            }
        },
    }
}

/// Parse one line of the server's newline-delimited output; see
/// [`spec_line_action`].
pub fn handle_line(line: &str) -> (r: LineAction)
    ensures
        r is Deliver <==> spec_line_action(line@) is Some,
        r matches LineAction::Deliver(id, v) ==> spec_line_action(line@) == Some((id, v)),
{
    let v = match parse_json(line) {
        Some(v) => v,
        None => {
            return LineAction::Ignore;
        },
    };
    match json_get(&v, "jsonrpc") {
        Some(f) => {
            if json_as_str(f).is_none() {
                return LineAction::Ignore;
            }
        },
        None => {
            return LineAction::Ignore;
        },
    }
    let id = match u64_field(&v, "id") {
        Some(n) => n,
        None => {
            return LineAction::Ignore;
        },
    };
    match json_get(&v, "result") {
        Some(r) => {
            if json_is_null(r) {
                LineAction::Ignore
            } else {
                LineAction::Deliver(id, json_clone(r))
            }
        },
        None => LineAction::Ignore,
    }
}

} // verus!
