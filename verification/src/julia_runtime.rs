//! What scripts say and are told.

use vstd::prelude::*;
use vstd::string::*;

use vstd::arithmetic::power2;

use crate::buffer::{Buffer, BufferInner};
use crate::rope;
use crate::scripted_mode;
use crate::scripted_mode::{JuliaModeAction, JuliaModeResult};
use crate::syntax;
use crate::syntax::{Color, Face, FaceRegistry, HighlightSpan};
use crate::text;
use crate::text::{
    char_byte_len, chars_string, concat2, decimal_string, quote, signed_string, str_chars,
    str_contains_char, str_eq,
};

verus! {

// --- Values ---

/// A value of a script.
#[derive(Debug)]
pub enum JuliaValue {
    Text(String),
    /// Text that is no valid text.
    BrokenText,
    Int(i64),
    Bool(bool),
    Array(Vec<JuliaValue>),
    Dict(Vec<JuliaEntry>),
    Other,
}

/// An entry of a dictionary of a script.
#[derive(Debug)]
pub struct JuliaEntry {
    pub key: String,
    pub value: JuliaValue,
}

/// The value of the last entry with a key.
pub open spec fn entry_value(entries: Seq<JuliaEntry>, key: Seq<char>) -> Option<JuliaValue>
    decreases entries.len(),
{
    if entries.len() == 0 {
        None
    } else if entries.last().key@ == key {
        Some(entries.last().value)
    } else {
        entry_value(entries.drop_last(), key)
    }
}

impl JuliaValue {
    /// The value of a key, if this is a dictionary that has it.
    pub open spec fn field(&self, key: Seq<char>) -> Option<JuliaValue> {
        match self {
            JuliaValue::Dict(entries) => entry_value(entries@, key),
            _ => None,
        }
    }

    /// The value of a key.
    pub fn get(&self, key: &str) -> (r: Option<&JuliaValue>)
        ensures
            match r {
                Some(v) => self.field(key@) == Some(*v),
                None => self.field(key@) is None,
            },
    {
        match self {
            JuliaValue::Dict(entries) => {
                let mut i: usize = entries.len();
                assert(entries@.take(i as int) =~= entries@);
                while i > 0
                    invariant
                        i <= entries@.len(),
                        *self == JuliaValue::Dict(*entries),
                        entry_value(entries@, key@) == entry_value(entries@.take(i as int), key@),
                    decreases i,
                {
                    assert(entries@.take(i as int).drop_last() =~= entries@.take(i - 1));
                    assert(entries@.take(i as int).last() == entries@[i - 1]);
                    i = i - 1;
                    if str_eq(entries[i].key.as_str(), key) {
                        return Some(&entries[i].value);
                    }
                }
                None
            },
            _ => None,
        }
    }

    /// The elements of a list; none where this is no list.
    pub open spec fn elements(&self) -> Seq<JuliaValue> {
        match self {
            JuliaValue::Array(items) => items@,
            _ => Seq::<JuliaValue>::empty(),
        }
    }

    /// The text, if this is valid text.
    pub open spec fn valid_text(&self) -> Option<Seq<char>> {
        match self {
            JuliaValue::Text(s) => Some(s@),
            _ => None,
        }
    }

    /// The text of a field; `broken` where it is no valid text. Nothing where
    /// it is no text.
    pub open spec fn text_field(&self, key: Seq<char>, broken: Seq<char>) -> Option<Seq<char>> {
        match self.field(key) {
            Some(JuliaValue::Text(s)) => Some(s@),
            Some(JuliaValue::BrokenText) => Some(broken),
            _ => None,
        }
    }

    fn get_text(&self, key: &str, broken: &str) -> (r: Option<String>)
        ensures
            match r {
                Some(s) => self.text_field(key@, broken@) == Some(s@),
                None => self.text_field(key@, broken@) is None,
            },
    {
        match self.get(key) {
            Some(value) => match value {
                JuliaValue::Text(s) => Some(s.clone()),
                JuliaValue::BrokenText => Some(broken.to_owned()),
                _ => None,
            },
            None => None,
        }
    }

    /// The number of a field; 0 where it is none.
    pub open spec fn int_field(&self, key: Seq<char>) -> i64 {
        match self.field(key) {
            Some(JuliaValue::Int(n)) => n,
            _ => 0,
        }
    }

    fn get_int(&self, key: &str) -> (r: i64)
        ensures
            r == self.int_field(key@),
    {
        match self.get(key) {
            Some(value) => match value {
                JuliaValue::Int(n) => *n,
                _ => 0,
            },
            None => 0,
        }
    }
}

// --- Errors ---

/// What can go wrong with scripts.
#[derive(Debug, Clone, PartialEq, Eq)]
pub enum JuliaRuntimeError {
    InitializationFailed(String),
    TaskExecutionFailed(String),
    ConfigLoadFailed(String),
    ScriptLoadFailed(String),
}

impl JuliaRuntimeError {
    /// The error, in words.
    pub open spec fn told(&self) -> Seq<char> {
        match self {
            JuliaRuntimeError::InitializationFailed(m) => "Julia initialization failed: "@ + m@,
            JuliaRuntimeError::TaskExecutionFailed(m) => "Julia task execution failed: "@ + m@,
            JuliaRuntimeError::ConfigLoadFailed(m) => "Julia config load failed: "@ + m@,
            JuliaRuntimeError::ScriptLoadFailed(m) => "Julia script load failed: "@ + m@,
        }
    }

    /// The error, in words.
    pub fn message(&self) -> (r: String)
        ensures
            r@ == self.told(),
    {
        match self {
            JuliaRuntimeError::InitializationFailed(m) => concat2(
                "Julia initialization failed: ",
                m.as_str(),
            ),
            JuliaRuntimeError::TaskExecutionFailed(m) => concat2(
                "Julia task execution failed: ",
                m.as_str(),
            ),
            JuliaRuntimeError::ConfigLoadFailed(m) => concat2(
                "Julia config load failed: ",
                m.as_str(),
            ),
            JuliaRuntimeError::ScriptLoadFailed(m) => concat2(
                "Julia script load failed: ",
                m.as_str(),
            ),
        }
    }
}

// --- Configuration ---

/// A value of the configuration.
#[derive(Debug)]
pub enum ConfigValue {
    String(String),
    Integer(i64),
    /// The bits of a double-precision number.
    Float(u64),
    Boolean(bool),
    Array(Vec<ConfigValue>),
    Dict(Vec<ConfigEntry>),
    Symbol(String),
}

/// An entry of a dictionary of the configuration.
#[derive(Debug)]
pub struct ConfigEntry {
    pub key: String,
    pub value: ConfigValue,
}

/// `2^52`, the unit of the significand of a double-precision number.
pub const DOUBLE_UNIT: u64 = 0x10_0000_0000_0000;

/// The whole part of the double-precision number that bits stand for, as far as
/// there is such a number; 0 for what is no number.
pub open spec fn whole_part(bits: u64) -> i64 {
    let negative = bits / 0x8000_0000_0000_0000 == 1;
    let exponent = (bits / DOUBLE_UNIT) % 2048;
    let fraction = bits % DOUBLE_UNIT;
    let significand = DOUBLE_UNIT + fraction;
    if exponent == 2047 && fraction > 0 {
        0
    } else if exponent >= 1086 {
        if negative {
            i64::MIN
        } else {
            i64::MAX
        }
    } else if exponent < 1023 {
        0
    } else {
        let magnitude = if exponent >= 1075 {
            significand * power2::pow2((exponent - 1075) as nat)
        } else {
            significand / (power2::pow2((1075 - exponent) as nat) as int)
        };
        if negative {
            (-magnitude) as i64
        } else {
            magnitude as i64
        }
    }
}

fn power(n: u64) -> (r: u64)
    requires
        n <= 52,
    ensures
        r == power2::pow2(n as nat),
        0 < r <= DOUBLE_UNIT,
{
    let mut r: u64 = 1;
    let mut i: u64 = 0;
    proof {
        power2::lemma2_to64();
        power2::lemma2_to64_rest();
    }
    while i < n
        invariant
            i <= n <= 52,
            r == power2::pow2(i as nat),
            power2::pow2(52) == DOUBLE_UNIT,
        decreases n - i,
    {
        proof {
            power2::lemma_pow2_unfold((i + 1) as nat);
            power2::lemma_pow2_strictly_increases(i as nat, 52);
        }
        r = r * 2;
        i = i + 1;
    }
    proof {
        power2::lemma_pow2_pos(n as nat);
        if n < 52 {
            power2::lemma_pow2_strictly_increases(n as nat, 52);
        }
    }
    r
}

fn truncate(bits: u64) -> (r: i64)
    ensures
        r == whole_part(bits),
{
    let negative = bits / 0x8000_0000_0000_0000 == 1;
    let exponent = (bits / DOUBLE_UNIT) % 2048;
    let fraction = bits % DOUBLE_UNIT;
    let significand = DOUBLE_UNIT + fraction;
    if exponent == 2047 && fraction > 0 {
        0
    } else if exponent >= 1086 {
        if negative {
            i64::MIN
        } else {
            i64::MAX
        }
    } else if exponent < 1023 {
        0
    } else {
        let magnitude: u64 = if exponent >= 1075 {
            let p = power(exponent - 1075);
            proof {
                power2::lemma2_to64();
                power2::lemma2_to64_rest();
                if exponent - 1075 < 10 {
                    power2::lemma_pow2_strictly_increases((exponent - 1075) as nat, 10);
                }
                assert(p <= 1024);
                assert(significand * p <= 0x1f_ffff_ffff_ffff * 1024) by (nonlinear_arith)
                    requires
                        significand <= 0x1f_ffff_ffff_ffff,
                        0 < p <= 1024,
                ;
            }
            significand * p
        } else {
            let p = power(1075 - exponent);
            proof {
                assert(significand as int / p as int <= significand) by (nonlinear_arith)
                    requires
                        p > 0,
                        significand >= 0,
                ;
            }
            significand / p
        };
        if negative {
            -(magnitude as i64)
        } else {
            magnitude as i64
        }
    }
}

impl ConfigValue {
    /// The text of a text or symbol.
    pub fn as_string(&self) -> (r: Option<String>)
        ensures
            match (self, r) {
                (ConfigValue::String(s), Some(t)) => t@ == s@,
                (ConfigValue::Symbol(s), Some(t)) => t@ == s@,
                (ConfigValue::String(_), None) => false,
                (ConfigValue::Symbol(_), None) => false,
                (_, x) => x is None,
            },
    {
        match self {
            ConfigValue::String(s) => Some(s.clone()),
            ConfigValue::Symbol(s) => Some(s.clone()),
            _ => None,
        }
    }

    /// The number, or the whole part of a number with a fraction.
    pub fn as_integer(&self) -> (r: Option<i64>)
        ensures
            r == match self {
                ConfigValue::Integer(n) => Some(*n),
                ConfigValue::Float(bits) => Some(whole_part(*bits)),
                _ => None,
            },
    {
        match self {
            ConfigValue::Integer(n) => Some(*n),
            ConfigValue::Float(bits) => Some(truncate(*bits)),
            _ => None,
        }
    }

    pub fn as_bool(&self) -> (r: Option<bool>)
        ensures
            r == match self {
                ConfigValue::Boolean(b) => Some(*b),
                _ => None,
            },
    {
        match self {
            ConfigValue::Boolean(b) => Some(*b),
            _ => None,
        }
    }

    /// The entries of a dictionary.
    pub fn as_dict(&self) -> (r: Option<&Vec<ConfigEntry>>)
        ensures
            match (self, r) {
                (ConfigValue::Dict(d), Some(e)) => *e == *d,
                (ConfigValue::Dict(_), None) => false,
                (_, x) => x is None,
            },
    {
        match self {
            ConfigValue::Dict(d) => Some(d),
            _ => None,
        }
    }
}

/// The text, number or truth value of a configuration, with a default for what
/// is missing or of another kind.
pub fn config_string(value: Option<ConfigValue>, default: &str) -> (r: String)
    ensures
        r@ == match value {
            Some(ConfigValue::String(s)) => s@,
            Some(ConfigValue::Symbol(s)) => s@,
            _ => default@,
        },
{
    match value {
        Some(v) => match v.as_string() {
            Some(s) => s,
            None => default.to_owned(),
        },
        None => default.to_owned(),
    }
}

pub fn config_int(value: Option<ConfigValue>, default: i64) -> (r: i64)
    ensures
        r == match value {
            Some(ConfigValue::Integer(n)) => n,
            Some(ConfigValue::Float(bits)) => whole_part(bits),
            _ => default,
        },
{
    match value {
        Some(v) => match v.as_integer() {
            Some(n) => n,
            None => default,
        },
        None => default,
    }
}

pub fn config_bool(value: Option<ConfigValue>, default: bool) -> (r: bool)
    ensures
        r == match value {
            Some(ConfigValue::Boolean(b)) => b,
            _ => default,
        },
{
    match value {
        Some(v) => match v.as_bool() {
            Some(b) => b,
            None => default,
        },
        None => default,
    }
}

/// The place of the first dot.
pub open spec fn first_dot(s: Seq<char>) -> Option<int>
    decreases s.len(),
{
    if s.len() == 0 {
        None
    } else {
        match first_dot(s.drop_last()) {
            Some(p) => Some(p),
            None => if s.last() == '.' {
                Some(s.len() - 1)
            } else {
                None
            },
        }
    }
}

/// The value that is kept of a value of a script: a text, number or truth
/// value.
pub open spec fn kept(value: JuliaValue, r: Option<ConfigValue>) -> bool {
    match value {
        JuliaValue::Text(s) => r matches Some(ConfigValue::String(t)) && t@ == s@,
        JuliaValue::Int(n) => r matches Some(ConfigValue::Integer(m)) && m == n,
        JuliaValue::Bool(b) => r matches Some(ConfigValue::Boolean(c)) && c == b,
        _ => r is None,
    }
}

fn keep(value: &JuliaValue) -> (r: Option<ConfigValue>)
    ensures
        kept(*value, r),
{
    match value {
        JuliaValue::Text(s) => Some(ConfigValue::String(s.clone())),
        JuliaValue::Int(n) => Some(ConfigValue::Integer(*n)),
        JuliaValue::Bool(b) => Some(ConfigValue::Boolean(*b)),
        _ => None,
    }
}

/// The value that a key names in a configuration: of a key with one dot, the
/// part behind the dot names a value in the dictionary that the part in front
/// of it names. A key with more dots names nothing.
pub open spec fn config_place(config: JuliaValue, key: Seq<char>) -> Option<JuliaValue> {
    match first_dot(key) {
        None => config.field(key),
        Some(p) => {
            let rest = key.skip(p + 1);
            if first_dot(rest) is Some {
                None
            } else {
                match config.field(key.take(p)) {
                    Some(inner) => inner.field(rest),
                    None => None,
                }
            }
        },
    }
}

fn find_dot(chars: &Vec<char>, from: usize) -> (r: Option<usize>)
    requires
        from <= chars@.len(),
    ensures
        match r {
            Some(p) => from <= p < chars@.len() && first_dot(chars@.skip(from as int)) == Some(
                p - from,
            ),
            None => first_dot(chars@.skip(from as int)) is None,
        },
{
    let ghost s = chars@.skip(from as int);
    let mut i: usize = from;
    assert(s.take(0) =~= seq![]);
    while i < chars.len()
        invariant
            from <= i <= chars@.len(),
            s == chars@.skip(from as int),
            first_dot(s.take(i - from)) is None,
        decreases chars.len() - i,
    {
        proof {
            assert(s.take(i - from + 1).drop_last() =~= s.take(i - from));
            assert(s.take(i - from + 1).last() == chars@[i as int]);
        }
        if chars[i] == '.' {
            proof {
                first_dot_stays(s, i - from + 1);
            }
            return Some(i);
        }
        i = i + 1;
    }
    assert(s.take(i - from) =~= s);
    None
}

proof fn first_dot_stays(s: Seq<char>, k: int)
    requires
        0 <= k <= s.len(),
        first_dot(s.take(k)) is Some,
    ensures
        first_dot(s) == first_dot(s.take(k)),
    decreases s.len(),
{
    if k < s.len() {
        assert(s.drop_last().take(k) =~= s.take(k));
        first_dot_stays(s.drop_last(), k);
    } else {
        assert(s.take(k) =~= s);
    }
}

/// The value that a key names in a configuration.
pub fn config_lookup(config: &JuliaValue, key: &str) -> (r: Option<ConfigValue>)
    ensures
        match config_place(*config, key@) {
            Some(v) => kept(v, r),
            None => r is None,
        },
{
    let chars = str_chars(key);
    assert(chars@.skip(0) =~= chars@);
    match find_dot(&chars, 0) {
        None => match config.get(key) {
            Some(v) => keep(v),
            None => None,
        },
        Some(p) => {
            if find_dot(&chars, p + 1).is_some() {
                return None;
            }
            let outer = chars_string(&chars, 0, p);
            let inner = chars_string(&chars, p + 1, chars.len());
            assert(outer@ =~= key@.take(p as int));
            assert(inner@ =~= key@.skip(p + 1));
            match config.get(outer.as_str()) {
                Some(dict) => match dict.get(inner.as_str()) {
                    Some(v) => keep(v),
                    None => None,
                },
                None => None,
            }
        },
    }
}

// --- Commands ---

/// What a command is told of the buffer.
#[derive(Debug, Clone)]
pub struct JuliaCommandContext {
    pub buffer_name: String,
    pub buffer_modified: bool,
    pub cursor_pos: usize,
    pub current_line: u16,
    pub current_column: u16,
    pub line_count: usize,
    pub char_count: usize,
    /// Where the mark is, or -1.
    pub mark_pos: i64,
}

/// What a command does to the buffer.
#[derive(Debug, Clone, PartialEq, Eq)]
pub enum JuliaBufferOp {
    Insert { pos: usize, text: String },
    Delete { start: usize, end: usize },
    Replace { start: usize, end: usize, text: String },
    SetCursor(usize),
    SetMark(usize),
    ClearMark,
    SetContent(String),
}

/// What a command comes to.
#[derive(Debug)]
pub enum JuliaCommandResult {
    Echo(String),
    Error(String),
    Nothing,
    BufferOps(Vec<JuliaBufferOp>),
    Multi(Vec<JuliaCommandResult>),
}

impl JuliaCommandContext {
    /// The expression that makes a dictionary of what a command is told.
    pub open spec fn expression(&self) -> Seq<char> {
        "Dict(\"buffer_name\" => "@ + text::quoted(self.buffer_name@) + ", \"buffer_modified\" => "@
            + scripted_mode::truth(self.buffer_modified) + ", \"cursor_pos\" => "@ + text::decimal(
            self.cursor_pos as nat,
        ) + ", \"current_line\" => "@ + text::decimal(self.current_line as nat)
            + ", \"current_column\" => "@ + text::decimal(self.current_column as nat)
            + ", \"line_count\" => "@ + text::decimal(self.line_count as nat)
            + ", \"char_count\" => "@ + text::decimal(self.char_count as nat)
            + ", \"mark_pos\" => "@ + text::signed(self.mark_pos) + ")"@
    }

    /// The expression that makes a dictionary of what a command is told.
    pub fn to_expression(&self) -> (r: String)
        ensures
            r@ == self.expression(),
    {
        let mut r = "Dict(\"buffer_name\" => ".to_owned();
        r.append(quote(self.buffer_name.as_str()).as_str());
        r.append(", \"buffer_modified\" => ");
        if self.buffer_modified {
            r.append("true");
        } else {
            r.append("false");
        }
        r.append(", \"cursor_pos\" => ");
        r.append(decimal_string(self.cursor_pos as u64).as_str());
        r.append(", \"current_line\" => ");
        r.append(decimal_string(self.current_line as u64).as_str());
        r.append(", \"current_column\" => ");
        r.append(decimal_string(self.current_column as u64).as_str());
        r.append(", \"line_count\" => ");
        r.append(decimal_string(self.line_count as u64).as_str());
        r.append(", \"char_count\" => ");
        r.append(decimal_string(self.char_count as u64).as_str());
        r.append(", \"mark_pos\" => ");
        r.append(signed_string(self.mark_pos).as_str());
        r.append(")");
        r
    }
}

/// Whether a command came to one operation on the buffer.
pub open spec fn one_op(r: JuliaCommandResult) -> Option<JuliaBufferOp> {
    match r {
        JuliaCommandResult::BufferOps(ops) if ops@.len() == 1 => Some(ops@[0]),
        _ => None,
    }
}

/// A text that may be missing, which then is empty.
pub open spec fn or_nothing(s: Option<Seq<char>>) -> Seq<char> {
    match s {
        Some(s) => s,
        None => Seq::<char>::empty(),
    }
}

/// Whether `r` is what the answer of a command comes to. There is no answer
/// where the command could not be called.
pub open spec fn command_decoded(answer: Option<JuliaValue>, r: JuliaCommandResult) -> bool {
    match answer {
        None => r matches JuliaCommandResult::Error(m) && m@ == "Failed to call Julia command"@,
        Some(dict) => match dict.field("type"@) {
            None => r matches JuliaCommandResult::Error(m) && m@ == "Missing 'type' in result"@,
            Some(kind) => {
                let pos = dict.int_field("pos"@) as usize;
                let start = dict.int_field("start"@) as usize;
                let end = dict.int_field("end"@) as usize;
                let shown = or_nothing(dict.text_field("text"@, Seq::<char>::empty()));
                let name = match kind.valid_text() {
                    Some(s) => s,
                    None => "unknown"@,
                };
                if name == "echo"@ {
                    r matches JuliaCommandResult::Echo(m) && m@ == or_nothing(
                        dict.text_field("message"@, Seq::<char>::empty()),
                    )
                } else if name == "error"@ {
                    r matches JuliaCommandResult::Error(m) && m@ == match dict.text_field(
                        "message"@,
                        "Unknown error"@,
                    ) {
                        Some(s) => s,
                        None => "Unknown error"@,
                    }
                } else if name == "insert"@ {
                    one_op(r) matches Some(JuliaBufferOp::Insert { pos: p, text: t }) && p == pos
                        && t@ == shown
                } else if name == "delete"@ {
                    one_op(r) == Some(JuliaBufferOp::Delete { start, end })
                } else if name == "replace"@ {
                    one_op(r) matches Some(
                        JuliaBufferOp::Replace { start: s, end: e, text: t },
                    ) && s == start && e == end && t@ == shown
                } else if name == "set_cursor"@ {
                    one_op(r) == Some(JuliaBufferOp::SetCursor(pos))
                } else if name == "set_mark"@ {
                    one_op(r) == Some(JuliaBufferOp::SetMark(pos))
                } else if name == "clear_mark"@ {
                    one_op(r) == Some(JuliaBufferOp::ClearMark)
                } else if name == "set_content"@ {
                    one_op(r) matches Some(JuliaBufferOp::SetContent(t)) && t@ == or_nothing(
                        dict.text_field("content"@, Seq::<char>::empty()),
                    )
                } else {
                    r is Nothing
                }
            },
        },
    }
}

fn text_or_empty(s: Option<String>) -> (r: String)
    ensures
        r@ == match s {
            Some(t) => t@,
            None => Seq::<char>::empty(),
        },
{
    match s {
        Some(t) => t,
        None => String::new(),
    }
}

/// What the answer of a command comes to.
pub fn decode_command_result(answer: Option<&JuliaValue>) -> (r: JuliaCommandResult)
    ensures
        command_decoded(
            match answer {
                Some(v) => Some(*v),
                None => None,
            },
            r,
        ),
{
    proof {
        reveal_strlit("");
        assert(""@ =~= Seq::<char>::empty());
    }
    let dict = match answer {
        Some(dict) => dict,
        None => return JuliaCommandResult::Error("Failed to call Julia command".to_owned()),
    };
    let name = match dict.get("type") {
        Some(kind) => match kind {
            JuliaValue::Text(s) => s.clone(),
            _ => "unknown".to_owned(),
        },
        None => return JuliaCommandResult::Error("Missing 'type' in result".to_owned()),
    };
    let name = name.as_str();
    if str_eq(name, "echo") {
        return JuliaCommandResult::Echo(text_or_empty(dict.get_text("message", "")));
    }
    if str_eq(name, "error") {
        return JuliaCommandResult::Error(
            match dict.get_text("message", "Unknown error") {
                Some(m) => m,
                None => "Unknown error".to_owned(),
            },
        );
    }
    let op = if str_eq(name, "insert") {
        JuliaBufferOp::Insert {
            pos: dict.get_int("pos") as usize,
            text: text_or_empty(dict.get_text("text", "")),
        }
    } else if str_eq(name, "delete") {
        JuliaBufferOp::Delete {
            start: dict.get_int("start") as usize,
            end: dict.get_int("end") as usize,
        }
    } else if str_eq(name, "replace") {
        JuliaBufferOp::Replace {
            start: dict.get_int("start") as usize,
            end: dict.get_int("end") as usize,
            text: text_or_empty(dict.get_text("text", "")),
        }
    } else if str_eq(name, "set_cursor") {
        JuliaBufferOp::SetCursor(dict.get_int("pos") as usize)
    } else if str_eq(name, "set_mark") {
        JuliaBufferOp::SetMark(dict.get_int("pos") as usize)
    } else if str_eq(name, "clear_mark") {
        JuliaBufferOp::ClearMark
    } else if str_eq(name, "set_content") {
        JuliaBufferOp::SetContent(text_or_empty(dict.get_text("content", "")))
    } else {
        return JuliaCommandResult::Nothing;
    };
    let ops = vec![op];
    assert(ops@[0] == op);
    JuliaCommandResult::BufferOps(ops)
}

// --- Modes ---

/// The valid text of a field.
pub open spec fn valid_field(value: JuliaValue, key: Seq<char>) -> Option<Seq<char>> {
    match value.field(key) {
        Some(v) => v.valid_text(),
        None => None,
    }
}

/// Whether `a` is what a dictionary of a script says of an action.
pub open spec fn action_decoded(value: JuliaValue, a: JuliaModeAction) -> bool {
    &&& a.action_type@ == or_nothing(valid_field(value, "type"@))
    &&& same_text(a.text, valid_field(value, "text"@))
    &&& same_text(a.position, valid_field(value, "position"@))
    &&& same_text(a.path, valid_field(value, "path"@))
    &&& same_text(a.open_type, valid_field(value, "open_type"@))
    &&& same_text(a.command, valid_field(value, "command"@))
    &&& a.buffer_index == match value.field("buffer_index"@) {
        Some(JuliaValue::Int(n)) => Some(n),
        _ => None,
    }
}

/// Whether a text that may be missing is this one.
pub open spec fn same_text(s: Option<String>, t: Option<Seq<char>>) -> bool {
    match (s, t) {
        (Some(a), Some(b)) => a@ == b,
        (None, None) => true,
        _ => false,
    }
}

fn get_valid(value: &JuliaValue, key: &str) -> (r: Option<String>)
    ensures
        same_text(r, valid_field(*value, key@)),
{
    match value.get(key) {
        Some(v) => match v {
            JuliaValue::Text(s) => Some(s.clone()),
            _ => None,
        },
        None => None,
    }
}

fn decode_action(value: &JuliaValue) -> (a: JuliaModeAction)
    ensures
        action_decoded(*value, a),
{
    JuliaModeAction {
        action_type: text_or_empty(get_valid(value, "type")),
        text: get_valid(value, "text"),
        position: get_valid(value, "position"),
        path: get_valid(value, "path"),
        open_type: get_valid(value, "open_type"),
        command: get_valid(value, "command"),
        buffer_index: match value.get("buffer_index") {
            Some(v) => match v {
                JuliaValue::Int(n) => Some(*n),
                _ => None,
            },
            None => None,
        },
    }
}

/// What the answer of a mode comes to: its kind, which is "ignored" where it is
/// no text, and its actions. Nothing where it has no kind.
pub fn decode_mode_result(answer: &JuliaValue) -> (r: Option<JuliaModeResult>)
    ensures
        match r {
            None => answer.field("result"@) is None,
            Some(m) => {
                let listed = match answer.field("actions"@) {
                    Some(list) => list.elements(),
                    None => Seq::<JuliaValue>::empty(),
                };
                &&& answer.field("result"@) is Some
                &&& m.result_type@ == match valid_field(*answer, "result"@) {
                    Some(s) => s,
                    None => "ignored"@,
                }
                &&& m.actions@.len() == listed.len()
                &&& forall|i: int|
                    0 <= i < listed.len() ==> action_decoded(listed[i], #[trigger] m.actions@[i])
            },
        },
{
    let result_type = match answer.get("result") {
        None => return None,
        Some(kind) => match kind {
            JuliaValue::Text(s) => s.clone(),
            _ => "ignored".to_owned(),
        },
    };
    let mut actions: Vec<JuliaModeAction> = Vec::new();
    match answer.get("actions") {
        Some(list) => match list {
            JuliaValue::Array(items) => {
                let mut i: usize = 0;
                while i < items.len()
                    invariant
                        i <= items@.len(),
                        actions@.len() == i,
                        forall|k: int|
                            0 <= k < i ==> action_decoded(items@[k], #[trigger] actions@[k]),
                    decreases items.len() - i,
                {
                    actions.push(decode_action(&items[i]));
                    i = i + 1;
                }
            },
            _ => (),
        },
        None => (),
    }
    Some(JuliaModeResult { result_type, actions })
}

/// Two texts in a list: a name and what belongs to it.
#[derive(Debug, Clone, PartialEq, Eq)]
pub struct TextPair {
    pub name: String,
    pub value: String,
}

/// The pair of texts that a list starts with, if both are valid.
pub open spec fn pair_in(value: JuliaValue) -> Option<(Seq<char>, Seq<char>)> {
    let items = value.elements();
    if items.len() < 2 {
        None
    } else {
        match (items[0].valid_text(), items[1].valid_text()) {
            (Some(a), Some(b)) => Some((a, b)),
            _ => None,
        }
    }
}

/// The pairs of texts in a list, in order. What is no pair is left out.
pub open spec fn pairs_in(items: Seq<JuliaValue>) -> Seq<(Seq<char>, Seq<char>)>
    decreases items.len(),
{
    if items.len() == 0 {
        seq![]
    } else {
        let before = pairs_in(items.drop_last());
        match pair_in(items.last()) {
            Some(p) => before.push(p),
            None => before,
        }
    }
}

/// Pairs of texts as mathematical values.
pub open spec fn pair_views(pairs: Seq<TextPair>) -> Seq<(Seq<char>, Seq<char>)> {
    pairs.map_values(|p: TextPair| (p.name@, p.value@))
}

fn decode_pair(value: &JuliaValue) -> (r: Option<TextPair>)
    ensures
        match r {
            Some(p) => pair_in(*value) == Some((p.name@, p.value@)),
            None => pair_in(*value) is None,
        },
{
    match value {
        JuliaValue::Array(items) => {
            if items.len() < 2 {
                return None;
            }
            match (&items[0], &items[1]) {
                (JuliaValue::Text(a), JuliaValue::Text(b)) => Some(
                    TextPair { name: a.clone(), value: b.clone() },
                ),
                _ => None,
            }
        },
        _ => None,
    }
}

/// The commands, or key bindings, that scripts define: pairs of texts.
pub fn decode_pairs(answer: &JuliaValue) -> (r: Vec<TextPair>)
    ensures
        pair_views(r@) == pairs_in(answer.elements()),
{
    let mut r: Vec<TextPair> = Vec::new();
    assert(pair_views(r@) =~= seq![]);
    match answer {
        JuliaValue::Array(items) => {
            let mut i: usize = 0;
            assert(items@.take(0) =~= seq![]);
            while i < items.len()
                invariant
                    i <= items@.len(),
                    pair_views(r@) == pairs_in(items@.take(i as int)),
                decreases items.len() - i,
            {
                assert(items@.take(i + 1).drop_last() =~= items@.take(i as int));
                assert(items@.take(i + 1).last() == items@[i as int]);
                let ghost before = r@;
                match decode_pair(&items[i]) {
                    Some(p) => {
                        r.push(p);
                        assert(pair_views(r@) =~= pair_views(before).push((p.name@, p.value@)));
                    },
                    None => (),
                }
                i = i + 1;
            }
            assert(items@.take(i as int) =~= items@);
        },
        _ => (),
    }
    r
}

// --- Replies ---

/// What came of work that was given to the scripts.
#[derive(Debug)]
pub enum TaskOutcome<T> {
    /// It could not be handed over.
    NotDispatched,
    /// It did not come to an end.
    NotFinished,
    /// It came to an error.
    Failed(String),
    Done(T),
}

/// What was done, or a fallback.
pub open spec fn done_or<T>(outcome: TaskOutcome<T>, fallback: T) -> T {
    match outcome {
        TaskOutcome::Done(v) => v,
        _ => fallback,
    }
}

/// What a question for the configuration is answered with.
pub fn reply_config(outcome: TaskOutcome<Option<ConfigValue>>) -> (r: Option<ConfigValue>)
    ensures
        r == done_or(outcome, None),
{
    match outcome {
        TaskOutcome::Done(v) => v,
        _ => None,
    }
}

/// What an addition is answered with.
pub fn reply_addition(outcome: TaskOutcome<u64>) -> (r: u64)
    ensures
        r == done_or(outcome, 0),
{
    match outcome {
        TaskOutcome::Done(v) => v,
        _ => 0,
    }
}

/// What an evaluation is answered with.
pub fn reply_eval(outcome: TaskOutcome<String>) -> (r: String)
    ensures
        r@ == match outcome {
            TaskOutcome::NotDispatched => "Error: Failed to dispatch task"@,
            TaskOutcome::NotFinished => "Error: Task execution failed"@,
            TaskOutcome::Failed(_) => "Error: Result processing failed"@,
            TaskOutcome::Done(s) => s@,
        },
{
    match outcome {
        TaskOutcome::NotDispatched => "Error: Failed to dispatch task".to_owned(),
        TaskOutcome::NotFinished => "Error: Task execution failed".to_owned(),
        TaskOutcome::Failed(_) => "Error: Result processing failed".to_owned(),
        TaskOutcome::Done(s) => s,
    }
}

/// What the loading of a module is answered with.
pub fn reply_module(outcome: TaskOutcome<Result<(), String>>) -> (r: Result<(), String>)
    ensures
        match outcome {
            TaskOutcome::NotDispatched => r matches Err(m) && m@ == "Failed to dispatch task"@,
            TaskOutcome::NotFinished => r matches Err(m) && m@ == "Task execution failed"@,
            TaskOutcome::Failed(e) => r matches Err(m) && m@ == "Julia error: "@ + e@,
            TaskOutcome::Done(v) => r == v,
        },
{
    match outcome {
        TaskOutcome::NotDispatched => Err("Failed to dispatch task".to_owned()),
        TaskOutcome::NotFinished => Err("Task execution failed".to_owned()),
        TaskOutcome::Failed(e) => Err(concat2("Julia error: ", e.as_str())),
        TaskOutcome::Done(v) => v,
    }
}

/// What a command is answered with.
pub fn reply_command(outcome: TaskOutcome<JuliaCommandResult>) -> (r: JuliaCommandResult)
    ensures
        match outcome {
            TaskOutcome::NotDispatched => r matches JuliaCommandResult::Error(m) && m@
                == "Failed to dispatch task"@,
            TaskOutcome::NotFinished => r matches JuliaCommandResult::Error(m) && m@
                == "Task execution failed"@,
            TaskOutcome::Failed(_) => r matches JuliaCommandResult::Error(m) && m@
                == "Result processing failed"@,
            TaskOutcome::Done(v) => r == v,
        },
{
    match outcome {
        TaskOutcome::NotDispatched => JuliaCommandResult::Error(
            "Failed to dispatch task".to_owned(),
        ),
        TaskOutcome::NotFinished => JuliaCommandResult::Error("Task execution failed".to_owned()),
        TaskOutcome::Failed(_) => JuliaCommandResult::Error("Result processing failed".to_owned()),
        TaskOutcome::Done(v) => v,
    }
}

/// What a question for the commands or key bindings is answered with.
pub fn reply_pairs(outcome: TaskOutcome<Vec<TextPair>>) -> (r: Vec<TextPair>)
    ensures
        match outcome {
            TaskOutcome::Done(v) => r == v,
            _ => r@.len() == 0,
        },
{
    match outcome {
        TaskOutcome::Done(v) => v,
        _ => Vec::new(),
    }
}

/// What a key for a mode is answered with.
pub fn reply_mode(outcome: TaskOutcome<Option<JuliaModeResult>>) -> (r: JuliaModeResult)
    ensures
        match outcome {
            TaskOutcome::Done(Some(m)) => r == m,
            _ => r.result_type@ == "ignored"@ && r.actions@.len() == 0,
        },
{
    match outcome {
        TaskOutcome::Done(done) => match done {
            Some(m) => m,
            None => JuliaModeResult { result_type: "ignored".to_owned(), actions: Vec::new() },
        },
        _ => JuliaModeResult { result_type: "ignored".to_owned(), actions: Vec::new() },
    }
}

/// What a question for the major mode of a file is answered with.
pub fn reply_major_mode(outcome: TaskOutcome<Option<String>>) -> (r: String)
    ensures
        r@ == match outcome {
            TaskOutcome::Done(Some(name)) => name@,
            _ => "fundamental-mode"@,
        },
{
    match outcome {
        TaskOutcome::Done(done) => match done {
            Some(name) => name,
            None => "fundamental-mode".to_owned(),
        },
        _ => "fundamental-mode".to_owned(),
    }
}

/// What the call of a hook is answered with: whether it succeeded.
pub fn reply_flag(outcome: TaskOutcome<JuliaValue>) -> (r: bool)
    ensures
        r == match outcome {
            TaskOutcome::Done(JuliaValue::Bool(b)) => b,
            _ => false,
        },
{
    match outcome {
        TaskOutcome::Done(value) => match value {
            JuliaValue::Bool(b) => b,
            _ => false,
        },
        _ => false,
    }
}

// --- The buffer of a running command ---

/// A text that can be handed to a script: it holds no NUL.
pub open spec fn passable(s: Seq<char>) -> Option<Seq<char>> {
    if s.contains('\0') {
        None
    } else {
        Some(s)
    }
}

fn pass(s: String) -> (r: Option<String>)
    ensures
        same_text(r, passable(s@)),
{
    if str_contains_char(s.as_str(), '\0') {
        None
    } else {
        Some(s)
    }
}

/// What the buffer holds.
pub fn buffer_content(b: Option<&Buffer>) -> (r: Option<String>)
    ensures
        match b {
            Some(b) => same_text(r, passable(b.text())),
            None => r is None,
        },
{
    match b {
        Some(b) => pass(b.content()),
        None => None,
    }
}

/// A line of the buffer.
pub fn buffer_line(b: Option<&Buffer>, line: i64) -> (r: Option<String>)
    requires
        b matches Some(b) ==> line < rope::line_count(b.text()),
        line <= usize::MAX,
    ensures
        match b {
            Some(b) if line >= 0 => same_text(r, passable(rope::line_text(b.text(), line as int))),
            _ => r is None,
        },
{
    match b {
        Some(b) => if line < 0 {
            None
        } else {
            pass(b.buffer_line(line as usize))
        },
        None => None,
    }
}

/// How many lines the buffer has.
pub fn buffer_line_count(b: Option<&Buffer>) -> (r: i64)
    ensures
        r == match b {
            Some(b) => (rope::line_count(b.text()) as usize) as i64,
            None => 0,
        },
{
    match b {
        Some(b) => b.buffer_len_lines() as i64,
        None => 0,
    }
}

/// How many characters the buffer has.
pub fn buffer_char_count(b: Option<&Buffer>) -> (r: i64)
    ensures
        r == match b {
            Some(b) => (b.text().len() as usize) as i64,
            None => 0,
        },
{
    match b {
        Some(b) => b.buffer_len_chars() as i64,
        None => 0,
    }
}

/// Whether a byte is one at which a character starts, or the end.
pub open spec fn char_starts(s: Seq<char>, byte: int, k: int) -> bool {
    0 <= k <= s.len() && text::utf8_len(s.take(k)) == byte
}

/// `n` as far as a text has bytes.
pub open spec fn byte_within(s: Seq<char>, n: i64) -> int {
    if n as usize <= text::utf8_len(s) {
        (n as usize) as int
    } else {
        text::utf8_len(s) as int
    }
}

fn char_at_byte(chars: &Vec<char>, byte: usize) -> (k: usize)
    requires
        exists|k: int| #[trigger] char_starts(chars@, byte as int, k),
        text::utf8_len(chars@) <= usize::MAX,
    ensures
        char_starts(chars@, byte as int, k as int),
{
    let ghost s = chars@;
    let ghost goal = choose|k: int| #[trigger] char_starts(s, byte as int, k);
    let mut at: usize = 0;
    let mut i: usize = 0;
    assert(s.take(0) =~= seq![]);
    while at < byte
        invariant
            s == chars@,
            i <= goal <= s.len(),
            char_starts(s, byte as int, goal),
            at == text::utf8_len(s.take(i as int)),
            at <= byte,
            text::utf8_len(s) <= usize::MAX,
        decreases goal - i,
    {
        proof {
            assert(i != goal);
            assert(s.take(i + 1).drop_last() =~= s.take(i as int));
            assert(s.take(i + 1).last() == s[i as int]);
            text::utf8_len_prefix(s, i + 1);
            text::utf8_len_prefix(s.take(goal), i + 1);
            assert(s.take(goal).take(i + 1) =~= s.take(i + 1));
        }
        at = at + char_byte_len(chars[i]);
        i = i + 1;
    }
    assert(char_starts(s, byte as int, i as int));
    i
}

/// The part of the buffer from a byte up to another, as far as it has bytes.
/// Both must be bytes at which a character starts.
pub fn buffer_substring(b: Option<&Buffer>, start: i64, end: i64) -> (r: Option<String>)
    requires
        b matches Some(b) ==> 0 <= start <= end ==> {
            &&& exists|k: int| #[trigger] char_starts(b.text(), byte_within(b.text(), start), k)
            &&& exists|k: int| #[trigger] char_starts(b.text(), byte_within(b.text(), end), k)
        },
        end <= usize::MAX,
    ensures
        match b {
            Some(b) if 0 <= start <= end => exists|i: int, j: int|
                #![trigger char_starts(b.text(), byte_within(b.text(), start), i), char_starts(b.text(), byte_within(b.text(), end), j)]
                {
                    &&& char_starts(b.text(), byte_within(b.text(), start), i)
                    &&& char_starts(b.text(), byte_within(b.text(), end), j)
                    &&& i <= j
                    &&& same_text(r, passable(b.text().subrange(i, j)))
                },
            _ => r is None,
        },
{
    match b {
        Some(b) => {
            if start < 0 || end < start {
                return None;
            }
            let content = b.content();
            let total = text::byte_len(content.as_str());
            let chars = str_chars(content.as_str());
            let from: usize = if start as usize <= total {
                start as usize
            } else {
                total
            };
            let to: usize = if end as usize <= total {
                end as usize
            } else {
                total
            };
            let i = char_at_byte(&chars, from);
            let j = char_at_byte(&chars, to);
            proof {
                if j < i {
                    let s = chars@;
                    text::utf8_len_prefix(s.take(i as int), j + 1);
                    assert(s.take(i as int).take(j + 1) =~= s.take(j + 1));
                    assert(s.take(j + 1).drop_last() =~= s.take(j as int));
                }
            }
            pass(chars_string(&chars, i, j))
        },
        None => None,
    }
}

/// Puts text into the buffer.
pub fn buffer_insert(b: &mut Buffer, pos: i64, text: Option<String>)
    requires
        pos <= old(b).text().len(),
        pos <= usize::MAX,
    ensures
        match text {
            Some(s) if pos >= 0 => {
                &&& old(b).inner.inserted(&final(b).inner, pos as int, s@)
                &&& old(b).inner.same_mark(&final(b).inner)
            },
            _ => *final(b) == *old(b),
        },
{
    match text {
        Some(s) => {
            if pos >= 0 {
                b.insert_pos(s, pos as usize);
            }
        },
        None => (),
    }
}

/// Takes the characters from `start` up to `end` out of the buffer, if they are
/// there.
pub fn buffer_delete(b: &mut Buffer, start: i64, end: i64)
    requires
        end <= usize::MAX,
    ensures
        if 0 <= start < end <= old(b).text().len() {
            &&& old(b).inner.deleted(&final(b).inner, start as int, end as int)
            &&& old(b).inner.same_mark(&final(b).inner)
        } else {
            *final(b) == *old(b)
        },
{
    if start < 0 || end <= start {
        return;
    }
    b.delete_region_range(start as usize, end as usize);
}

// --- Faces and spans ---

/// Whether `face` is the face that a script describes. Colours that are none
/// are left out.
pub open spec fn face_described(
    face: Face,
    name: Seq<char>,
    foreground: Option<Seq<char>>,
    background: Option<Seq<char>>,
    bold: bool,
    italic: bool,
    underline: bool,
) -> bool {
    &&& face.name@ == name
    &&& face.foreground == match foreground {
        Some(s) => Color::meant(s),
        None => None,
    }
    &&& face.background == match background {
        Some(s) => Color::meant(s),
        None => None,
    }
    &&& face.bold == bold
    &&& face.italic == italic
    &&& face.underline == underline
}

/// A text that may be missing, as a mathematical value.
pub open spec fn seen(s: Option<String>) -> Option<Seq<char>> {
    match s {
        Some(s) => Some(s@),
        None => None,
    }
}

/// Defines a face, or gives one another look. Says whether there was a name.
pub fn define_face(
    registry: &mut FaceRegistry,
    name: Option<String>,
    foreground: Option<String>,
    background: Option<String>,
    bold: bool,
    italic: bool,
    underline: bool,
) -> (r: bool)
    ensures
        r == (name is Some),
        match name {
            None => *final(registry) == *old(registry),
            Some(name) => exists|face: Face| #[trigger]
                face_described(
                    face,
                    name@,
                    seen(foreground),
                    seen(background),
                    bold,
                    italic,
                    underline,
                ) && match old(registry).id_of(name@) {
                    Some(id) => final(registry).faces@ == old(registry).faces@.update(
                        id.0 as int,
                        face,
                    ),
                    None => final(registry).faces@ == old(registry).faces@.push(face),
                },
        },
{
    let name = match name {
        Some(name) => name,
        None => return false,
    };
    let mut face = Face::new(name.as_str());
    if let Some(s) = &foreground {
        face.foreground = Color::from_hex(s.as_str());
    }
    if let Some(s) = &background {
        face.background = Color::from_hex(s.as_str());
    }
    face.bold = bold;
    face.italic = italic;
    face.underline = underline;
    let ghost described = face;
    assert(face_described(
        described,
        name@,
        seen(foreground),
        seen(background),
        bold,
        italic,
        underline,
    ));
    registry.define(face);
    true
}

/// Whether a face with a name is defined.
pub fn face_exists(registry: &FaceRegistry, name: &str) -> (r: bool)
    ensures
        r == (registry.id_of(name@) is Some),
{
    registry.get_id(name).is_some()
}

/// A span as a script describes it. The face is missing where its name is no
/// text.
#[derive(Debug, Clone)]
pub struct SpanRequest {
    pub start: i64,
    pub end: i64,
    pub face_name: Option<String>,
}

impl SpanRequest {
    /// The span that is asked for, if its range and its face are in order.
    pub open spec fn meant(&self, registry: FaceRegistry) -> Option<HighlightSpan> {
        if self.start < 0 || self.end <= self.start {
            None
        } else {
            match self.face_name {
                Some(name) => match registry.id_of(name@) {
                    Some(face_id) => Some(
                        HighlightSpan {
                            start: self.start as usize,
                            end: self.end as usize,
                            face_id,
                        },
                    ),
                    None => None,
                },
                None => None,
            }
        }
    }

    fn to_span(&self, registry: &FaceRegistry) -> (r: Option<HighlightSpan>)
        ensures
            r == self.meant(*registry),
    {
        if self.start < 0 || self.end <= self.start {
            return None;
        }
        match &self.face_name {
            Some(name) => match registry.get_id(name.as_str()) {
                Some(face_id) => Some(
                    HighlightSpan::new(self.start as usize, self.end as usize, face_id),
                ),
                None => None,
            },
            None => None,
        }
    }
}

/// The spans that are asked for and in order.
pub open spec fn spans_meant(requests: Seq<SpanRequest>, registry: FaceRegistry) -> Seq<
    HighlightSpan,
>
    decreases requests.len(),
{
    if requests.len() == 0 {
        seq![]
    } else {
        let before = spans_meant(requests.drop_last(), registry);
        match requests.last().meant(registry) {
            Some(span) => before.push(span),
            None => before,
        }
    }
}

/// Adds spans to the buffer. Gives how many were in order.
pub fn add_spans(b: &mut Buffer, registry: &FaceRegistry, requests: &Vec<SpanRequest>) -> (r: usize)
    ensures
        r == spans_meant(requests@, *registry).len(),
        final(b).inner.spans@ == old(b).inner.spans@ + spans_meant(requests@, *registry),
        final(b).inner == (BufferInner { spans: final(b).inner.spans, ..old(b).inner }),
{
    let mut spans: Vec<HighlightSpan> = Vec::new();
    let mut i: usize = 0;
    assert(requests@.take(0) =~= seq![]);
    while i < requests.len()
        invariant
            i <= requests@.len(),
            spans@ == spans_meant(requests@.take(i as int), *registry),
        decreases requests.len() - i,
    {
        assert(requests@.take(i + 1).drop_last() =~= requests@.take(i as int));
        assert(requests@.take(i + 1).last() == requests@[i as int]);
        match requests[i].to_span(registry) {
            Some(span) => {
                spans.push(span);
            },
            None => (),
        }
        i = i + 1;
    }
    assert(requests@.take(i as int) =~= requests@);
    let added = spans.len();
    b.add_spans(spans);
    added
}

/// Adds a span to the buffer. Says whether it was in order.
pub fn add_span(b: &mut Buffer, registry: &FaceRegistry, request: &SpanRequest) -> (r: bool)
    ensures
        r == (request.meant(*registry) is Some),
        match request.meant(*registry) {
            Some(span) => {
                &&& final(b).inner.spans@ == old(b).inner.spans@.push(span)
                &&& final(b).inner == (BufferInner { spans: final(b).inner.spans, ..old(b).inner })
            },
            None => *final(b) == *old(b),
        },
{
    match request.to_span(registry) {
        Some(span) => {
            b.add_span(span);
            true
        },
        None => false,
    }
}

/// Drops the spans of the buffer that overlap a range, if it is one.
pub fn clear_spans_in_range(b: &mut Buffer, start: i64, end: i64)
    requires
        end <= usize::MAX,
    ensures
        if 0 <= start < end {
            &&& final(b).inner.spans@ == syntax::spans_apart(
                old(b).inner.spans@,
                start as int,
                end as int,
            )
            &&& final(b).inner == (BufferInner { spans: final(b).inner.spans, ..old(b).inner })
        } else {
            *final(b) == *old(b)
        },
{
    if start < 0 || end <= start {
        return;
    }
    b.clear_spans_in_range(start as usize, end as usize);
}

} // verus!
