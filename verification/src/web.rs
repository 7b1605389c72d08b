//! The sensor tree that LibreHardwareMonitor serves over HTTP as JSON.
//!
//! Every node of the tree may carry a text, a sensor identifier, a value, a type and
//! children. The first text on the way down from the root names the hardware. A node
//! with an identifier and a value is a sensor, and its value is a number followed by
//! a unit.

use vstd::prelude::*;
use vstd::utf8::char_is_scalar;
use crate::sensors::{views, SensorSnapshot, SensorView};
use crate::sequences::numbers;
use crate::single::Single;
use crate::text::{decimal_text, is_space, law_decimal, trimmed};

verus! {

/// A JSON value as `serde_json` holds it.
#[verifier::external_type_specification]
#[verifier::external_body]
pub struct ExValue(serde_json::Value);

/// What a JSON value holds, one level deep.
pub enum JsonContent {
    Object(Map<Seq<char>, serde_json::Value>),
    Array(Seq<serde_json::Value>),
    Text(Seq<char>),
    Scalar,
}

/// What a JSON value holds.
pub uninterp spec fn json_content(value: serde_json::Value) -> JsonContent;

/// How deep a JSON value is nested.
pub uninterp spec fn json_depth(value: serde_json::Value) -> nat;

/// The sensor tree in a JSON text, where it is one.
pub uninterp spec fn parsed_tree(text: Seq<char>) -> Option<NodeView>;

/// `serde_json::from_str`: parses a JSON text. Whether it succeeds, and the tree in
/// the value, depend on the text alone; what they are is left to the parser.
#[verifier::external_body]
fn parse_json(text: &str) -> (value: Option<serde_json::Value>)
    ensures
        match value {
            Some(v) => parsed_tree(text@) == Some(node_of(v)),
            None => parsed_tree(text@) is None,
        },
{
    serde_json::from_str(text).ok()
}

/// `serde_json::Value::get` with a text as its index: the value of a key of an
/// object, and nothing where there is no such key or the value is no object. What
/// stands in a value is nested less deep than the value.
#[verifier::external_body]
fn json_get<'a>(value: &'a serde_json::Value, key: &str) -> (field: Option<&'a serde_json::Value>)
    ensures
        match json_content(*value) {
            JsonContent::Object(fields) => if fields.contains_key(key@) {
                field == Some(&fields[key@])
            } else {
                field is None
            },
            _ => field is None,
        },
        field matches Some(f) ==> json_depth(*f) < json_depth(*value),
{
    value.get(key)
}

/// `serde_json::Value::as_str`: the text of a value that is one.
pub assume_specification[ serde_json::Value::as_str ](value: &serde_json::Value) -> (text: Option<
    &str,
>)
    ensures
        match json_content(*value) {
            JsonContent::Text(s) => text is Some && text.unwrap()@ == s,
            _ => text is None,
        },
;

/// `serde_json::Value::as_array`: the elements of a value that is an array. What
/// stands in a value is nested less deep than the value.
pub assume_specification[ serde_json::Value::as_array ](value: &serde_json::Value) -> (items:
    Option<&Vec<serde_json::Value>>)
    ensures
        match json_content(*value) {
            JsonContent::Array(s) => items is Some && items.unwrap()@ == s,
            _ => items is None,
        },
        items matches Some(v) ==> forall|i: int|
            0 <= i < v@.len() ==> json_depth(#[trigger] v@[i]) < json_depth(*value),
;

/// A node of the sensor tree: what it carries of the keys that matter.
pub struct JsonNode {
    pub text: Option<String>,
    pub sensor_id: Option<String>,
    pub value: Option<String>,
    pub sensor_type: Option<String>,
    pub children: Vec<JsonNode>,
}

/// The mathematical content of a [`JsonNode`].
pub struct NodeView {
    pub text: Option<Seq<char>>,
    pub sensor_id: Option<Seq<char>>,
    pub value: Option<Seq<char>>,
    pub sensor_type: Option<Seq<char>>,
    pub children: Seq<NodeView>,
}

/// The content of an optional text.
pub open spec fn text_of(text: Option<String>) -> Option<Seq<char>> {
    match text {
        Some(t) => Some(t@),
        None => None,
    }
}

impl JsonNode {
    /// The content of the node and of everything below it.
    pub open spec fn tree(self) -> NodeView
        decreases self,
    {
        NodeView {
            text: text_of(self.text),
            sensor_id: text_of(self.sensor_id),
            value: text_of(self.value),
            sensor_type: text_of(self.sensor_type),
            children: Seq::new(
                self.children@.len(),
                |i: int|
                    if 0 <= i < self.children@.len() {
                        self.children@[i].tree()
                    } else {
                        arbitrary()
                    },
            ),
        }
    }
}

/// The value of a key of a JSON object.
pub open spec fn json_field(value: serde_json::Value, key: Seq<char>) -> Option<
    serde_json::Value,
> {
    match json_content(value) {
        JsonContent::Object(fields) if fields.contains_key(key) => Some(fields[key]),
        _ => None,
    }
}

/// The text that is the value of a key of a JSON object.
pub open spec fn json_text(value: serde_json::Value, key: Seq<char>) -> Option<Seq<char>> {
    match json_field(value, key) {
        Some(field) => match json_content(field) {
            JsonContent::Text(text) => Some(text),
            _ => None,
        },
        None => None,
    }
}

/// The elements of the array that is the value of a key of a JSON object, and none
/// where it is no array.
pub open spec fn json_items(value: serde_json::Value, key: Seq<char>) -> Seq<serde_json::Value> {
    match json_field(value, key) {
        Some(field) => match json_content(field) {
            JsonContent::Array(items) => items,
            _ => Seq::empty(),
        },
        None => Seq::empty(),
    }
}

/// The sensor tree in a JSON value.
pub open spec fn node_of(value: serde_json::Value) -> NodeView
    decreases json_depth(value),
{
    NodeView {
        text: json_text(value, "Text"@),
        sensor_id: json_text(value, "SensorId"@),
        value: json_text(value, "Value"@),
        sensor_type: json_text(value, "Type"@),
        children: json_items(value, "Children"@).map_values(
            |item: serde_json::Value|
                if json_depth(item) < json_depth(value) {
                    node_of(item)
                } else {
                    arbitrary()
                },
        ),
    }
}

fn read_text(value: &serde_json::Value, key: &str) -> (text: Option<String>)
    ensures
        text_of(text) == json_text(*value, key@),
{
    match json_get(value, key) {
        Some(field) => match field.as_str() {
            Some(text) => Some(text.to_owned()),
            None => None,
        },
        None => None,
    }
}

/// Reads the sensor tree in a JSON value.
pub fn read_node(value: &serde_json::Value) -> (node: JsonNode)
    ensures
        node.tree() == node_of(*value),
    decreases json_depth(*value),
{
    let text = read_text(value, "Text");
    let sensor_id = read_text(value, "SensorId");
    let raw = read_text(value, "Value");
    let sensor_type = read_text(value, "Type");
    let mut children: Vec<JsonNode> = Vec::new();
    if let Some(field) = json_get(value, "Children") {
        if let Some(items) = field.as_array() {
            let mut i: usize = 0;
            while i < items.len()
                invariant
                    i <= items.len(),
                    children@.len() == i,
                    forall|j: int|
                        0 <= j < items@.len() ==> json_depth(#[trigger] items@[j]) < json_depth(
                            *value,
                        ),
                    forall|j: int|
                        0 <= j < i ==> (#[trigger] children@[j]).tree() == node_of(items@[j]),
                decreases items.len() - i,
            {
                children.push(read_node(&items[i]));
                i += 1;
            }
        }
    }
    let node = JsonNode { text, sensor_id, value: raw, sensor_type, children };
    assert(node.tree().children =~= node_of(*value).children);
    node
}

/// The sensor tree in a JSON text; `None` where the text is not JSON.
pub fn parse_tree(text: &str) -> (node: Option<JsonNode>)
    ensures
        match node {
            Some(n) => parsed_tree(text@) == Some(n.tree()),
            None => parsed_tree(text@) is None,
        },
{
    match parse_json(text) {
        Some(value) => Some(read_node(&value)),
        None => None,
    }
}

/// A sensor in the tree whose value is still a text.
pub struct SensorReading {
    pub name: String,
    pub identifier: String,
    pub sensor_type: String,
    pub hardware_name: String,
    pub numeral: String,
}

/// The mathematical content of a [`SensorReading`].
#[verifier::ext_equal]
pub struct ReadingView {
    pub name: Seq<char>,
    pub identifier: Seq<char>,
    pub sensor_type: Seq<char>,
    pub hardware_name: Seq<char>,
    pub numeral: Seq<char>,
}

impl View for SensorReading {
    type V = ReadingView;

    open spec fn view(&self) -> ReadingView {
        ReadingView {
            name: self.name@,
            identifier: self.identifier@,
            sensor_type: self.sensor_type@,
            hardware_name: self.hardware_name@,
            numeral: self.numeral@,
        }
    }
}

/// The contents of a sequence of sensors.
pub open spec fn reading_views(readings: Seq<SensorReading>) -> Seq<ReadingView> {
    readings.map_values(|r: SensorReading| r@)
}

/// Whether a character may stand in the number of a sensor value.
pub open spec fn in_numeral(c: char) -> bool {
    '0' <= c <= '9' || c == '.' || c == ',' || c == '-'
}

/// The number that a text starts with, with a dot as its decimal mark.
pub open spec fn leading_numeral(text: Seq<char>) -> Seq<char>
    decreases text.len(),
{
    if text.len() > 0 && in_numeral(text.first()) {
        seq![
            if text.first() == ',' {
                '.'
            } else {
                text.first()
            },
        ] + leading_numeral(text.drop_first())
    } else {
        Seq::empty()
    }
}

/// The number in a sensor value such as "55.0 °C", with a dot as its decimal mark.
pub open spec fn numeral_of(value: Seq<char>) -> Seq<char> {
    leading_numeral(trimmed(value))
}

/// A text that may be missing, empty where it is.
pub open spec fn or_empty(text: Option<Seq<char>>) -> Seq<char> {
    match text {
        Some(t) => t,
        None => Seq::empty(),
    }
}

impl NodeView {
    /// The name of the hardware at this node, where `hardware` is its name above.
    pub open spec fn hardware(self, hardware: Seq<char>) -> Seq<char> {
        if hardware.len() == 0 {
            or_empty(self.text)
        } else {
            hardware
        }
    }

    /// The sensor that the node itself is, if it is one.
    pub open spec fn own_reading(self, hardware: Seq<char>) -> Seq<ReadingView> {
        if self.sensor_id is Some && self.value is Some {
            seq![
                ReadingView {
                    name: or_empty(self.text),
                    identifier: self.sensor_id.unwrap(),
                    sensor_type: or_empty(self.sensor_type),
                    hardware_name: self.hardware(hardware),
                    numeral: numeral_of(self.value.unwrap()),
                },
            ]
        } else {
            Seq::empty()
        }
    }

    /// The sensors at and below the node, where `hardware` is the name of the
    /// hardware above it: a node before its children, and those in their order.
    pub open spec fn readings(self, hardware: Seq<char>) -> Seq<ReadingView>
        decreases self,
    {
        self.own_reading(hardware) + readings_below(self.children, self.hardware(hardware))
    }
}

/// The sensors at and below each of `nodes`.
pub open spec fn readings_below(nodes: Seq<NodeView>, hardware: Seq<char>) -> Seq<ReadingView>
    decreases nodes,
{
    if nodes.len() == 0 {
        Seq::empty()
    } else {
        readings_below(nodes.drop_last(), hardware) + nodes[nodes.len() - 1].readings(hardware)
    }
}

/// The number in a sensor value such as "55.0 °C", "1200 RPM" or "65,2 %", with a dot
/// as its decimal mark.
pub fn sensor_numeral(value: &str) -> (numeral: String)
    ensures
        numeral@ == numeral_of(value@),
{
    let text = value.trim();
    let mut numeral = String::new();
    let mut taking = true;
    assert(text@.skip(0) =~= text@);
    for c in it: text.chars()
        invariant
            it.seq() == text@,
            leading_numeral(text@) == numeral@ + if taking {
                leading_numeral(text@.skip(it.index() as int))
            } else {
                Seq::empty()
            },
    {
        assert(text@.skip(it.index() as int).drop_first() =~= text@.skip(it.index() + 1));
        if taking && (('0' <= c && c <= '9') || c == '.' || c == ',' || c == '-') {
            numeral.push(
                if c == ',' {
                    '.'
                } else {
                    c
                },
            );
        } else {
            taking = false;
        }
    }
    assert(leading_numeral(text@) =~= numeral@);
    numeral
}

fn or_empty_text(text: &Option<String>) -> (t: String)
    ensures
        t@ == or_empty(text_of(*text)),
{
    match text {
        Some(t) => t.clone(),
        None => String::new(),
    }
}

/// Appends the sensors at and below a node to `out`, where `hw_name` is the name of
/// the hardware above it, and empty at the root.
pub fn traverse_json_node(node: &JsonNode, hw_name: &str, out: &mut Vec<SensorReading>)
    ensures
        reading_views(final(out)@) == reading_views(old(out)@) + node.tree().readings(hw_name@),
    decreases node,
{
    let ghost start = reading_views(out@);
    let ghost tree = node.tree();
    let text = or_empty_text(&node.text);
    let effective_hw = if hw_name.is_empty() {
        text.clone()
    } else {
        hw_name.to_owned()
    };
    if let Some(id) = &node.sensor_id {
        if let Some(raw) = &node.value {
            let reading = SensorReading {
                name: text,
                identifier: id.clone(),
                sensor_type: or_empty_text(&node.sensor_type),
                hardware_name: effective_hw.clone(),
                numeral: sensor_numeral(raw),
            };
            let ghost before = out@;
            out.push(reading);
            assert(reading_views(out@) =~= reading_views(before).push(reading@));
        }
    }
    assert(reading_views(out@) =~= start + tree.own_reading(hw_name@));
    let ghost own = reading_views(out@);
    let mut i: usize = 0;
    assert(readings_below(tree.children.take(0), effective_hw@) =~= Seq::empty());
    while i < node.children.len()
        invariant
            i <= node.children@.len(),
            tree == node.tree(),
            reading_views(out@) == own + readings_below(
                tree.children.take(i as int),
                effective_hw@,
            ),
        decreases node.children.len() - i,
    {
        assert(tree.children[i as int] == node.children@[i as int].tree());
        assert(tree.children.take(i + 1).drop_last() =~= tree.children.take(i as int));
        let child = &node.children[i];
        assert(decreases_to!(node => child));
        traverse_json_node(child, effective_hw.as_str(), out);
        assert(reading_views(out@) =~= own + readings_below(
            tree.children.take(i + 1),
            effective_hw@,
        ));
        i += 1;
    }
    assert(tree.children.take(i as int) =~= tree.children);
    assert(reading_views(out@) =~= start + tree.readings(hw_name@));
}

/// The sensors in a JSON text; `None` where the text is not JSON.
pub fn lhm_readings(body: &str) -> (readings: Option<Vec<SensorReading>>)
    ensures
        match parsed_tree(body@) {
            Some(tree) => readings is Some && reading_views(readings.unwrap()@) == tree.readings(
                Seq::empty(),
            ),
            None => readings is None,
        },
{
    match parse_tree(body) {
        Some(node) => {
            let mut out: Vec<SensorReading> = Vec::new();
            assert(""@ =~= Seq::<char>::empty()) by {
                reveal_strlit("");
            }
            traverse_json_node(&node, "", &mut out);
            assert(reading_views(out@) =~= node.tree().readings(Seq::empty()));
            Some(out)
        },
        None => None,
    }
}

/// From a position to the snapshot of the sensor there, where its value is a finite
/// number.
pub open spec fn snapshot_at(
    readings: Seq<ReadingView>,
    values: Seq<Option<Single>>,
) -> spec_fn(int) -> Option<SensorView> {
    |i: int|
        match values[i] {
            Some(value) => if value.finite() {
                Some(
                    SensorView {
                        name: readings[i].name,
                        identifier: readings[i].identifier,
                        sensor_type: readings[i].sensor_type,
                        hardware_name: readings[i].hardware_name,
                        value,
                    },
                )
            } else {
                None
            },
            None => None,
        }
}

/// The snapshots of sensors whose values have been read from their numerals: those
/// with a finite number, in their order; `None` where there are none.
pub fn resolve_readings(readings: &[SensorReading], values: &[Option<Single>]) -> (sensors: Option<
    Vec<SensorSnapshot>,
>)
    requires
        readings@.len() == values@.len(),
    ensures
        ({
            let all = numbers(readings@.len()).filter_map(
                snapshot_at(reading_views(readings@), values@),
            );
            match sensors {
                Some(s) => views(s@) == all && all.len() > 0,
                None => all.len() == 0,
            }
        }),
{
    let ghost f = snapshot_at(reading_views(readings@), values@);
    let mut sensors: Vec<SensorSnapshot> = Vec::new();
    let mut i: usize = 0;
    assert(views(sensors@) =~= numbers(0).filter_map(f));
    while i < readings.len()
        invariant
            i <= readings@.len() == values@.len(),
            f == snapshot_at(reading_views(readings@), values@),
            views(sensors@) == numbers(i as nat).filter_map(f),
        decreases readings.len() - i,
    {
        let ghost done = sensors@;
        assert(numbers((i + 1) as nat).drop_last() =~= numbers(i as nat));
        if let Some(value) = values[i] {
            if value.is_finite() {
                let sensor = SensorSnapshot {
                    name: readings[i].name.clone(),
                    identifier: readings[i].identifier.clone(),
                    sensor_type: readings[i].sensor_type.clone(),
                    hardware_name: readings[i].hardware_name.clone(),
                    value,
                };
                sensors.push(sensor);
                assert(views(sensors@) =~= views(done).push(sensor@));
            }
        }
        i += 1;
    }
    assert(views(sensors@).len() == sensors@.len());
    if sensors.is_empty() {
        None
    } else {
        Some(sensors)
    }
}

/// Below a node whose hardware has a name, every sensor belongs to that hardware,
/// whatever the texts of the nodes in between.
pub proof fn law_hardware_is_inherited(node: NodeView, hardware: Seq<char>, i: int)
    requires
        hardware.len() > 0,
        0 <= i < node.readings(hardware).len(),
    ensures
        node.readings(hardware)[i].hardware_name == hardware,
    decreases node,
{
    let own = node.own_reading(hardware);
    if i >= own.len() {
        lemma_hardware_below(node.children, hardware, i - own.len());
    }
}

proof fn lemma_hardware_below(nodes: Seq<NodeView>, hardware: Seq<char>, i: int)
    requires
        hardware.len() > 0,
        0 <= i < readings_below(nodes, hardware).len(),
    ensures
        readings_below(nodes, hardware)[i].hardware_name == hardware,
    decreases nodes,
{
    let before = readings_below(nodes.drop_last(), hardware);
    if i < before.len() {
        lemma_hardware_below(nodes.drop_last(), hardware, i);
    } else {
        law_hardware_is_inherited(nodes[nodes.len() - 1], hardware, i - before.len());
    }
}

/// At the root, where no hardware has been named yet, the text of the node names it for
/// the node and for everything below.
pub proof fn law_first_text_names_hardware(node: NodeView, i: int)
    requires
        or_empty(node.text).len() > 0,
        0 <= i < node.readings(Seq::empty()).len(),
    ensures
        node.readings(Seq::empty())[i].hardware_name == or_empty(node.text),
{
    let own = node.own_reading(Seq::empty());
    if i >= own.len() {
        lemma_hardware_below(node.children, or_empty(node.text), i - own.len());
    }
}

/// Whatever the values of sensors are read as, every snapshot has a finite value.
pub proof fn law_snapshots_are_finite(
    readings: Seq<ReadingView>,
    values: Seq<Option<Single>>,
    n: nat,
    i: int,
)
    requires
        0 <= i < numbers(n).filter_map(snapshot_at(readings, values)).len(),
    ensures
        numbers(n).filter_map(snapshot_at(readings, values))[i].value.finite(),
{
    let all = numbers(n).filter_map(snapshot_at(readings, values));
    assert(all.contains(all[i]));
    numbers(n).lemma_filter_map_contains(snapshot_at(readings, values), all[i]);
}

/// Whether a character is one of the ten digits, a dot, a comma or a minus.
pub open spec fn number_character(c: char) -> bool {
    ||| c == '0'
    ||| c == '1'
    ||| c == '2'
    ||| c == '3'
    ||| c == '4'
    ||| c == '5'
    ||| c == '6'
    ||| c == '7'
    ||| c == '8'
    ||| c == '9'
    ||| c == '.'
    ||| c == ','
    ||| c == '-'
}

/// The numeral of a value is everything from its first character that is not white space
/// up to the first that is no digit, dot, comma or minus, with a dot for each comma:
/// character by character what stands there, whatever unit follows.
pub proof fn law_numeral(left: Seq<char>, body: Seq<char>, rest: Seq<char>, i: int)
    requires
        forall|k: int| 0 <= k < left.len() ==> is_space(#[trigger] left[k]),
        body.len() > 0,
        forall|k: int| 0 <= k < body.len() ==> number_character(#[trigger] body[k]),
        rest.len() > 0 ==> !number_character(rest[0]),
        0 <= i < body.len(),
    ensures
        numeral_of(left + body + rest).len() == body.len(),
        body[i] == ',' ==> numeral_of(left + body + rest)[i] == '.',
        body[i] != ',' ==> numeral_of(left + body + rest)[i] == body[i],
{
    let first = body[0];
    let last = body[body.len() - 1];
    assert(number_character(first) && number_character(last));
    let m = lemma_trim_keeps(left, body, rest);
    lemma_leading(body, rest.take(m));
}

/// A value without a digit, dot, comma or minus at its start has an empty numeral.
pub proof fn law_no_numeral(left: Seq<char>, c: char, rest: Seq<char>)
    requires
        forall|k: int| 0 <= k < left.len() ==> is_space(#[trigger] left[k]),
        !is_space(c),
        !number_character(c),
    ensures
        numeral_of(left + seq![c] + rest).len() == 0,
{
    let m = lemma_trim_keeps(left, seq![c], rest);
    assert((seq![c] + rest.take(m)).first() == c);
}

/// The numeral of a number in decimal, with nothing or a blank and a unit behind it, is
/// that number in decimal.
pub proof fn law_numeral_of_decimal(n: nat, rest: Seq<char>)
    requires
        rest.len() > 0 ==> rest[0] == ' ',
    ensures
        numeral_of(decimal_text(n) + rest) == decimal_text(n),
{
    let body = decimal_text(n);
    law_decimal(n);
    assert forall|k: int| 0 <= k < body.len() implies number_character(#[trigger] body[k])
        && body[k] != ',' by {
        assert('0' <= body[k] <= '9');
        char_is_scalar(body[k]);
    }
    let whole = Seq::<char>::empty() + body + rest;
    assert(whole =~= body + rest);
    law_numeral(Seq::empty(), body, rest, 0);
    assert forall|i: int| 0 <= i < body.len() implies numeral_of(body + rest)[i] == body[i] by {
        law_numeral(Seq::empty(), body, rest, i);
    }
    assert(numeral_of(body + rest) =~= body);
}

/// What trimming leaves of a text whose middle starts and ends with other characters than
/// white space: the middle, and some of what follows it.
proof fn lemma_trim_keeps(left: Seq<char>, body: Seq<char>, rest: Seq<char>) -> (m: int)
    requires
        forall|k: int| 0 <= k < left.len() ==> is_space(#[trigger] left[k]),
        body.len() > 0,
        !is_space(body.first()),
        !is_space(body.last()),
    ensures
        0 <= m <= rest.len(),
        trimmed(left + body + rest) == body + rest.take(m),
    decreases left.len() + rest.len(),
{
    let text = left + body + rest;
    if left.len() > 0 {
        assert(is_space(left[0]));
        let less = left.drop_first();
        assert(forall|k: int| 0 <= k < less.len() ==> less[k] == left[k + 1]);
        assert(text.drop_first() =~= less + body + rest);
        lemma_trim_keeps(less, body, rest)
    } else if rest.len() > 0 && is_space(rest.last()) {
        let less = rest.drop_last();
        assert(text.first() == body.first());
        assert(text.drop_last() =~= left + body + less);
        let m = lemma_trim_keeps(left, body, less);
        assert(less.take(m) =~= rest.take(m));
        m
    } else {
        assert(text.first() == body.first());
        assert(text =~= body + rest.take(rest.len() as int));
        if rest.len() > 0 {
            assert(text.last() == rest.last());
        } else {
            assert(text.last() == body.last());
        }
        rest.len() as int
    }
}

proof fn lemma_leading(body: Seq<char>, rest: Seq<char>)
    requires
        forall|k: int| 0 <= k < body.len() ==> number_character(#[trigger] body[k]),
        rest.len() > 0 ==> !number_character(rest[0]),
    ensures
        leading_numeral(body + rest).len() == body.len(),
        forall|i: int|
            0 <= i < body.len() ==> #[trigger] leading_numeral(body + rest)[i] == if body[i]
                == ',' {
                '.'
            } else {
                body[i]
            },
    decreases body.len(),
{
    let text = body + rest;
    if body.len() > 0 {
        let less = body.drop_first();
        assert(forall|k: int| 0 <= k < less.len() ==> less[k] == body[k + 1]);
        lemma_leading(less, rest);
        assert(number_character(body[0]));
        assert(text.first() == body[0]);
        assert(text.drop_first() =~= less + rest);
        assert forall|i: int| 0 <= i < body.len() implies #[trigger] leading_numeral(text)[i]
            == if body[i] == ',' {
            '.'
        } else {
            body[i]
        } by {
            if i > 0 {
                assert(leading_numeral(text)[i] == leading_numeral(less + rest)[i - 1]);
            }
        }
    } else {
        assert(text =~= rest);
        if rest.len() > 0 {
            char_is_scalar(rest[0]);
        }
    }
}

/// A node with an identifier and a value is the first of its sensors: with its own text as
/// the name, its identifier and type, the numeral of its value, and the hardware named
/// above it, or named by itself where none is. Its children's sensors follow.
pub proof fn law_sensor_node(node: NodeView, hardware: Seq<char>)
    ensures
        ({
            let text = match node.text {
                Some(t) => t,
                None => Seq::empty(),
            };
            let named = if hardware.len() > 0 {
                hardware
            } else {
                text
            };
            let below = readings_below(node.children, named);
            let all = node.readings(hardware);
            &&& node.sensor_id is None || node.value is None ==> all == below
            &&& node.sensor_id is Some && node.value is Some ==> {
                &&& all.len() == 1 + below.len()
                &&& all.skip(1) == below
                &&& all[0].name == text
                &&& all[0].identifier == node.sensor_id.unwrap()
                &&& all[0].hardware_name == named
                &&& all[0].numeral == numeral_of(node.value.unwrap())
                &&& node.sensor_type is Some ==> all[0].sensor_type == node.sensor_type.unwrap()
                &&& node.sensor_type is None ==> all[0].sensor_type.len() == 0
            }
        }),
{
    let all = node.readings(hardware);
    let below = readings_below(node.children, node.hardware(hardware));
    if node.sensor_id is Some && node.value is Some {
        assert(all.skip(1) =~= below);
    } else {
        assert(all =~= below);
    }
}

/// The sensors below nodes are those of each node, between those of the nodes before it
/// and those of the nodes behind it; none are left out.
pub proof fn law_children_in_order(nodes: Seq<NodeView>, hardware: Seq<char>, k: int)
    requires
        0 <= k < nodes.len(),
    ensures
        readings_below(nodes, hardware) == readings_below(nodes.take(k), hardware)
            + nodes[k].readings(hardware) + readings_below(nodes.skip(k + 1), hardware),
        readings_below(Seq::empty(), hardware).len() == 0,
    decreases nodes.len(),
{
    let last = nodes.len() - 1;
    let rest = nodes.drop_last();
    if k == last {
        assert(rest =~= nodes.take(k));
        assert(nodes.skip(k + 1) =~= Seq::empty());
        assert(readings_below(nodes, hardware) =~= readings_below(nodes.take(k), hardware)
            + nodes[k].readings(hardware) + readings_below(nodes.skip(k + 1), hardware));
    } else {
        law_children_in_order(rest, hardware, k);
        assert(rest.take(k) =~= nodes.take(k));
        assert(rest[k] == nodes[k]);
        let behind = nodes.skip(k + 1);
        assert(behind.drop_last() =~= rest.skip(k + 1));
        assert(behind[behind.len() - 1] == nodes[last]);
        assert(readings_below(nodes, hardware) =~= readings_below(nodes.take(k), hardware)
            + nodes[k].readings(hardware) + readings_below(behind, hardware));
    }
}

/// Every sensor whose value is a finite number becomes a snapshot with its own texts and
/// that value, behind the snapshots of the sensors before it.
pub proof fn law_finite_values_become_snapshots(
    readings: Seq<ReadingView>,
    values: Seq<Option<Single>>,
    n: nat,
    i: int,
)
    requires
        0 <= i < n,
        values[i] is Some,
        values[i].unwrap().bits % 0x8000_0000 < 0x7f80_0000,
    ensures
        ({
            let f = snapshot_at(readings, values);
            let all = numbers(n).filter_map(f);
            let k = numbers(i as nat).filter_map(f).len() as int;
            &&& k < all.len()
            &&& all.take(k) == numbers(i as nat).filter_map(f)
            &&& all[k].name == readings[i].name
            &&& all[k].identifier == readings[i].identifier
            &&& all[k].sensor_type == readings[i].sensor_type
            &&& all[k].hardware_name == readings[i].hardware_name
            &&& all[k].value == values[i].unwrap()
        }),
    decreases n,
{
    let f = snapshot_at(readings, values);
    let all = numbers(n).filter_map(f);
    let rest = numbers((n - 1) as nat);
    assert(numbers(n).drop_last() =~= rest);
    assert(numbers(n).last() == n - 1);
    let k = numbers(i as nat).filter_map(f).len() as int;
    if i < n - 1 {
        law_finite_values_become_snapshots(readings, values, (n - 1) as nat, i);
        assert(all.take(k) =~= rest.filter_map(f).take(k));
        assert(all[k] == rest.filter_map(f)[k]);
    } else {
        assert(rest =~= numbers(i as nat));
        assert(all.take(k) =~= numbers(i as nat).filter_map(f));
    }
}

/// A sensor without a value, or whose value is not finite, becomes no snapshot.
pub proof fn law_other_values_become_none(
    readings: Seq<ReadingView>,
    values: Seq<Option<Single>>,
    i: nat,
)
    requires
        values[i as int] matches Some(v) ==> v.bits % 0x8000_0000 >= 0x7f80_0000,
    ensures
        ({
            let f = snapshot_at(readings, values);
            numbers(i + 1).filter_map(f) == numbers(i).filter_map(f)
        }),
{
    assert(numbers(i + 1).drop_last() =~= numbers(i));
    assert(numbers(i + 1).last() == i);
}

/// A JSON object is a node with the texts under the keys Text, SensorId, Value and Type,
/// where there are texts, and with the elements under the key Children as its children,
/// where there is an array.
pub proof fn law_json_node(
    value: serde_json::Value,
    fields: Map<Seq<char>, serde_json::Value>,
    i: int,
)
    requires
        json_content(value) == JsonContent::Object(fields),
    ensures
        node_of(value).text == text_under(fields, "Text"@),
        node_of(value).sensor_id == text_under(fields, "SensorId"@),
        node_of(value).value == text_under(fields, "Value"@),
        node_of(value).sensor_type == text_under(fields, "Type"@),
        fields.contains_key("Children"@) ==> match json_content(fields["Children"@]) {
            JsonContent::Array(items) => {
                &&& node_of(value).children.len() == items.len()
                &&& 0 <= i < items.len() && json_depth(items[i]) < json_depth(value)
                    ==> node_of(value).children[i] == node_of(items[i])
            },
            _ => node_of(value).children.len() == 0,
        },
        !fields.contains_key("Children"@) ==> node_of(value).children.len() == 0,
{
}

/// The text under a key of an object, where it is there and is a text.
pub open spec fn text_under(fields: Map<Seq<char>, serde_json::Value>, key: Seq<char>) -> Option<
    Seq<char>,
> {
    if !fields.contains_key(key) {
        None
    } else {
        match json_content(fields[key]) {
            JsonContent::Text(t) => Some(t),
            _ => None,
        }
    }
}

/// A JSON value that is no object is a node without anything.
pub proof fn law_other_json_is_empty(value: serde_json::Value)
    requires
        !(json_content(value) is Object),
    ensures
        node_of(value).text is None,
        node_of(value).sensor_id is None,
        node_of(value).value is None,
        node_of(value).sensor_type is None,
        node_of(value).children.len() == 0,
{
}

/// The content of a node is that of its own texts, and its children are its children.
pub proof fn law_tree(node: JsonNode, i: int)
    ensures
        node.text is None ==> node.tree().text is None,
        node.text matches Some(t) ==> node.tree().text == Some(t@),
        node.sensor_id is None ==> node.tree().sensor_id is None,
        node.sensor_id matches Some(t) ==> node.tree().sensor_id == Some(t@),
        node.value is None ==> node.tree().value is None,
        node.value matches Some(t) ==> node.tree().value == Some(t@),
        node.sensor_type is None ==> node.tree().sensor_type is None,
        node.sensor_type matches Some(t) ==> node.tree().sensor_type == Some(t@),
        node.tree().children.len() == node.children@.len(),
        0 <= i < node.children@.len() ==> node.tree().children[i] == node.children@[i].tree(),
{
}

/// The content of a sensor is that of each of its parts, and that of several that of each
/// in its place.
pub proof fn law_reading_contents(r: SensorReading, all: Seq<SensorReading>, i: int)
    ensures
        r@.name == r.name@,
        r@.identifier == r.identifier@,
        r@.sensor_type == r.sensor_type@,
        r@.hardware_name == r.hardware_name@,
        r@.numeral == r.numeral@,
        reading_views(all).len() == all.len(),
        0 <= i < all.len() ==> reading_views(all)[i] == all[i]@,
{
}

} // verus!
