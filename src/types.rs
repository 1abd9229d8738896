//! Basic enumerations and key events.
use vstd::prelude::*;
use vstd::string::*;
use std::collections::HashMap;

verus! {

/// Input scheme.
#[derive(Debug, Clone, Copy, PartialEq, Eq, Hash, Structural)]
pub enum SchemeType {
    /// Full pinyin, simplified characters.
    PinyinSimplified,
    /// Full pinyin, traditional characters.
    PinyinTraditional,
    /// Double pinyin.
    DoublePinyin,
}

/// The identifier of a scheme type.
pub open spec fn scheme_name(s: SchemeType) -> Seq<char> {
    match s {
        SchemeType::PinyinSimplified => "pinyin_simp"@,
        SchemeType::PinyinTraditional => "pinyin_trad"@,
        SchemeType::DoublePinyin => "double_pinyin"@,
    }
}

impl SchemeType {
    /// The identifier of the scheme type (`pinyin_simp`, `pinyin_trad`, `double_pinyin`).
    pub fn to_string(&self) -> (r: String)
        ensures
            r@ == scheme_name(*self),
    {
        match self {
            SchemeType::PinyinSimplified => String::from_str("pinyin_simp"),
            SchemeType::PinyinTraditional => String::from_str("pinyin_trad"),
            SchemeType::DoublePinyin => String::from_str("double_pinyin"),
        }
    }
}

/// Character variant of the output.
#[derive(Debug, Clone, Copy, PartialEq, Eq, Hash, Structural)]
pub enum ConvertType {
    /// Simplified characters.
    Simplified,
    /// Traditional characters.
    Traditional,
}

/// Double-pinyin key layout.
#[derive(Debug, Clone, Copy, PartialEq, Eq, Hash, Structural)]
pub enum DoublePinyinScheme {
    /// Xiaohe layout.
    XiaoHe,
    /// Sogou layout.
    Sogou,
    /// Ziran layout.
    Ziran,
    /// Standard layout.
    Standard,
}

/// State of the composition.
#[derive(Debug, Clone, Copy, PartialEq, Eq, Hash, Structural)]
pub enum InputState {
    /// Nothing is being composed.
    Idle,
    /// Keystrokes are being typed.
    Composing,
    /// The user browses the candidates.
    Selecting,
}

/// Modifier flags of a key event.
#[derive(Debug, Clone, Copy, PartialEq, Eq, Structural)]
pub struct KeyModifiers {
    pub shift: bool,
    pub ctrl: bool,
    pub alt: bool,
    pub meta: bool,
}

/// A key event.
#[derive(Debug, Clone, PartialEq, Eq, Structural)]
pub struct KeyEvent {
    /// Key code.
    pub keycode: u32,
    /// Printable character of the key.
    pub key: char,
    /// Modifier flags.
    pub modifiers: KeyModifiers,
}

impl Default for KeyModifiers {
    fn default() -> (r: KeyModifiers)
        ensures
            !r.shift && !r.ctrl && !r.alt && !r.meta,
    {
        KeyModifiers { shift: false, ctrl: false, alt: false, meta: false }
    }
}

impl KeyModifiers {
    /// No modifier set.
    pub fn new() -> (r: Self)
        ensures
            !r.shift && !r.ctrl && !r.alt && !r.meta,
    {
        KeyModifiers { shift: false, ctrl: false, alt: false, meta: false }
    }

    /// The same flags with shift set.
    pub fn with_shift(self) -> (r: Self)
        ensures
            r == (KeyModifiers { shift: true, ..self }),
    {
        KeyModifiers { shift: true, ..self }
    }

    /// The same flags with ctrl set.
    pub fn with_ctrl(self) -> (r: Self)
        ensures
            r == (KeyModifiers { ctrl: true, ..self }),
    {
        KeyModifiers { ctrl: true, ..self }
    }
}

/// Engine options.
#[derive(Debug, Clone)]
pub struct Options {
    /// Input scheme.
    pub scheme: SchemeType,
    /// Character variant.
    pub convert_type: ConvertType,
    /// Largest number of candidates shown.
    pub max_candidates: usize,
    /// Custom settings.
    pub custom: HashMap<String, String>,
}

impl Default for Options {
    fn default() -> (r: Options)
        ensures
            r.scheme == SchemeType::PinyinSimplified,
            r.convert_type == ConvertType::Simplified,
            r.max_candidates == 10,
            r.custom@.len() == 0,
    {
        Options {
            scheme: SchemeType::PinyinSimplified,
            convert_type: ConvertType::Simplified,
            max_candidates: 10,
            custom: HashMap::new(),
        }
    }
}

} // verus!
