//! Keyboard keys, controller buttons and their mapping onto keys.

use vstd::prelude::*;

verus! {

/// A concrete key of the input system.
#[derive(Debug, Clone, Copy, PartialEq, Eq, Structural)]
pub enum Key {
    Unicode(char),
    UpArrow,
    DownArrow,
    LeftArrow,
    RightArrow,
    Return,
    Tab,
    Escape,
    Shift,
    Control,
    Alt,
    Backspace,
}

/// A controller button that a key mapping assigns a keyboard key to.
#[derive(Debug, Clone, Copy, PartialEq, Eq, Structural)]
pub enum Button {
    A,
    B,
    Select,
    Start,
    Right,
    Left,
    Up,
    Down,
    RShoulder,
    LShoulder,
}

/// Errors of reading an input sequence.
#[derive(Debug, Clone, PartialEq, Eq)]
pub enum SequenceError {
    /// A token that does not follow the grammar; holds the offending text.
    MalformedSequence(String),
    /// A key name outside the supported catalogue; holds the name.
    UnsupportedKey(String),
}

impl SequenceError {
    pub open spec fn is_malformed(&self, text: Seq<char>) -> bool {
        self matches SequenceError::MalformedSequence(t) && t@ == text
    }

    pub open spec fn is_unsupported(&self, name: Seq<char>) -> bool {
        self matches SequenceError::UnsupportedKey(k) && k@ == name
    }
}

/// What `str::to_lowercase` returns for a text.
pub uninterp spec fn lower_of(s: Seq<char>) -> Seq<char>;

/// What `str::to_uppercase` returns for a text.
pub uninterp spec fn upper_of(s: Seq<char>) -> Seq<char>;

/// Whether every character of a text is ASCII.
pub open spec fn is_ascii_text(s: Seq<char>) -> bool {
    forall|i: int| 0 <= i < s.len() ==> (#[trigger] s[i] as u32) < 128
}

/// An ASCII character with a capital letter lowered.
pub open spec fn ascii_lower(c: char) -> char {
    if 'A' <= c && c <= 'Z' {
        ((c as u8) + 32) as u8 as char
    } else {
        c
    }
}

/// An ASCII character with a small letter raised.
pub open spec fn ascii_upper(c: char) -> char {
    if 'a' <= c && c <= 'z' {
        ((c as u8) - 32) as u8 as char
    } else {
        c
    }
}

/// What `str::to_lowercase` returns: on ASCII text each capital letter
/// lowered, one for one.
pub open spec fn lower_text(s: Seq<char>) -> Seq<char> {
    if is_ascii_text(s) {
        Seq::new(s.len(), |i: int| ascii_lower(s[i]))
    } else {
        lower_of(s)
    }
}

/// What `str::to_uppercase` returns: on ASCII text each small letter
/// raised, one for one.
pub open spec fn upper_text(s: Seq<char>) -> Seq<char> {
    if is_ascii_text(s) {
        Seq::new(s.len(), |i: int| ascii_upper(s[i]))
    } else {
        upper_of(s)
    }
}

/// Relies on `str::to_lowercase`: the result depends on the characters
/// alone, and ASCII text has each capital letter lowered, one for one.
#[verifier::external_body]
fn lowercase(s: &str) -> (r: String)
    ensures
        r@ == lower_text(s@),
        !is_ascii_text(s@) ==> r@ == lower_of(s@),
{
    s.to_lowercase()
}

/// Relies on `str::to_uppercase`: the result depends on the characters
/// alone, and ASCII text has each small letter raised, one for one.
#[verifier::external_body]
fn uppercase(s: &str) -> (r: String)
    ensures
        r@ == upper_text(s@),
        !is_ascii_text(s@) ==> r@ == upper_of(s@),
{
    s.to_uppercase()
}

/// Whether two texts hold the same characters.
pub fn same_text(a: &str, b: &str) -> (r: bool)
    ensures
        r == (a@ == b@),
{
    let n = a.unicode_len();
    if n != b.unicode_len() {
        return false;
    }
    let mut i: usize = 0;
    while i < n
        invariant
            n == a@.len(),
            n == b@.len(),
            i <= n,
            forall|j: int| 0 <= j < i ==> a@[j] == b@[j],
        decreases n - i,
    {
        if a.get_char(i) != b.get_char(i) {
            return false;
        }
        i = i + 1;
    }
    assert(a@ =~= b@);
    true
}

pub open spec fn is_key_char(c: char) -> bool {
    ('a' <= c && c <= 'z') || ('0' <= c && c <= '9')
}

/// The key that a lower-cased raw key name stands for, if any.
pub open spec fn raw_key_of(l: Seq<char>) -> Option<Key> {
    if l.len() == 1 && is_key_char(l[0]) {
        Some(Key::Unicode(l[0]))
    } else if l == "up"@ || l == "arrow_up"@ {
        Some(Key::UpArrow)
    } else if l == "down"@ || l == "arrow_down"@ {
        Some(Key::DownArrow)
    } else if l == "left"@ || l == "arrow_left"@ {
        Some(Key::LeftArrow)
    } else if l == "right"@ || l == "arrow_right"@ {
        Some(Key::RightArrow)
    } else if l == "space"@ {
        Some(Key::Unicode(' '))
    } else if l == "enter"@ || l == "return"@ {
        Some(Key::Return)
    } else if l == "tab"@ {
        Some(Key::Tab)
    } else if l == "escape"@ || l == "esc"@ {
        Some(Key::Escape)
    } else if l == "shift"@ {
        Some(Key::Shift)
    } else if l == "ctrl"@ || l == "control"@ {
        Some(Key::Control)
    } else if l == "alt"@ {
        Some(Key::Alt)
    } else if l == "backspace"@ {
        Some(Key::Backspace)
    } else {
        None
    }
}

/// The key named by an already lower-cased raw key name.
pub fn raw_key_from_lowered(l: &str) -> (r: Option<Key>)
    ensures
        r == raw_key_of(l@),
{
    if l.unicode_len() == 1 {
        let c = l.get_char(0);
        if ('a' <= c && c <= 'z') || ('0' <= c && c <= '9') {
            return Some(Key::Unicode(c));
        }
    }
    if same_text(l, "up") || same_text(l, "arrow_up") {
        Some(Key::UpArrow)
    } else if same_text(l, "down") || same_text(l, "arrow_down") {
        Some(Key::DownArrow)
    } else if same_text(l, "left") || same_text(l, "arrow_left") {
        Some(Key::LeftArrow)
    } else if same_text(l, "right") || same_text(l, "arrow_right") {
        Some(Key::RightArrow)
    } else if same_text(l, "space") {
        Some(Key::Unicode(' '))
    } else if same_text(l, "enter") || same_text(l, "return") {
        Some(Key::Return)
    } else if same_text(l, "tab") {
        Some(Key::Tab)
    } else if same_text(l, "escape") || same_text(l, "esc") {
        Some(Key::Escape)
    } else if same_text(l, "shift") {
        Some(Key::Shift)
    } else if same_text(l, "ctrl") || same_text(l, "control") {
        Some(Key::Control)
    } else if same_text(l, "alt") {
        Some(Key::Alt)
    } else if same_text(l, "backspace") {
        Some(Key::Backspace)
    } else {
        None
    }
}


/// Resolves a raw keyboard key name, matched without regard to case.
pub fn parse_raw_key(key_str: &str) -> (r: Result<Key, SequenceError>)
    ensures
        r is Ok <==> raw_key_of(lower_text(key_str@)) is Some,
        r matches Ok(k) ==> raw_key_of(lower_text(key_str@)) == Some(k),
        r matches Err(e) ==> e.is_unsupported(key_str@),
{
    let lowered = lowercase(key_str);
    match raw_key_from_lowered(lowered.as_str()) {
        Some(k) => Ok(k),
        None => Err(SequenceError::UnsupportedKey(String::from_str(key_str))),
    }
}

/// The controller button that an upper-cased symbolic name stands for:
/// a letter code or a digit alias.
pub open spec fn button_of(u: Seq<char>) -> Option<Button> {
    if u.len() != 1 {
        None
    } else if u[0] == 'A' || u[0] == '0' {
        Some(Button::A)
    } else if u[0] == 'B' || u[0] == '1' {
        Some(Button::B)
    } else if u[0] == 'E' || u[0] == '2' {
        Some(Button::Select)
    } else if u[0] == 'S' || u[0] == '3' {
        Some(Button::Start)
    } else if u[0] == 'R' || u[0] == '4' {
        Some(Button::Right)
    } else if u[0] == 'L' || u[0] == '5' {
        Some(Button::Left)
    } else if u[0] == 'U' || u[0] == '6' {
        Some(Button::Up)
    } else if u[0] == 'D' || u[0] == '7' {
        Some(Button::Down)
    } else if u[0] == 'I' || u[0] == '8' {
        Some(Button::RShoulder)
    } else if u[0] == 'J' || u[0] == '9' {
        Some(Button::LShoulder)
    } else {
        None
    }
}

/// The button named by an already upper-cased symbolic name.
pub fn button_from_uppered(u: &str) -> (r: Option<Button>)
    ensures
        r == button_of(u@),
{
    if u.unicode_len() != 1 {
        return None;
    }
    let c = u.get_char(0);
    if c == 'A' || c == '0' {
        Some(Button::A)
    } else if c == 'B' || c == '1' {
        Some(Button::B)
    } else if c == 'E' || c == '2' {
        Some(Button::Select)
    } else if c == 'S' || c == '3' {
        Some(Button::Start)
    } else if c == 'R' || c == '4' {
        Some(Button::Right)
    } else if c == 'L' || c == '5' {
        Some(Button::Left)
    } else if c == 'U' || c == '6' {
        Some(Button::Up)
    } else if c == 'D' || c == '7' {
        Some(Button::Down)
    } else if c == 'I' || c == '8' {
        Some(Button::RShoulder)
    } else if c == 'J' || c == '9' {
        Some(Button::LShoulder)
    } else {
        None
    }
}

/// The keyboard key name assigned to each controller button.
#[derive(Debug)]
pub struct GbaKeyMappings {
    pub a: String,
    pub b: String,
    pub select: String,
    pub start: String,
    pub right: String,
    pub left: String,
    pub up: String,
    pub down: String,
    pub r_shoulder: String,
    pub l_shoulder: String,
}

pub fn default_button_a() -> (r: String)
    ensures
        r@ == "x"@,
{
    String::from_str("x")
}

pub fn default_button_b() -> (r: String)
    ensures
        r@ == "z"@,
{
    String::from_str("z")
}

pub fn default_select() -> (r: String)
    ensures
        r@ == "backspace"@,
{
    String::from_str("backspace")
}

pub fn default_start() -> (r: String)
    ensures
        r@ == "enter"@,
{
    String::from_str("enter")
}

pub fn default_dpad_right() -> (r: String)
    ensures
        r@ == "right"@,
{
    String::from_str("right")
}

pub fn default_dpad_left() -> (r: String)
    ensures
        r@ == "left"@,
{
    String::from_str("left")
}

pub fn default_dpad_up() -> (r: String)
    ensures
        r@ == "up"@,
{
    String::from_str("up")
}

pub fn default_dpad_down() -> (r: String)
    ensures
        r@ == "down"@,
{
    String::from_str("down")
}

pub fn default_button_r() -> (r: String)
    ensures
        r@ == "s"@,
{
    String::from_str("s")
}

pub fn default_button_l() -> (r: String)
    ensures
        r@ == "a"@,
{
    String::from_str("a")
}

impl GbaKeyMappings {
    /// The built-in assignment of keys to buttons.
    pub open spec fn is_builtin(&self) -> bool {
        &&& self.a@ == "x"@
        &&& self.b@ == "z"@
        &&& self.select@ == "backspace"@
        &&& self.start@ == "enter"@
        &&& self.right@ == "right"@
        &&& self.left@ == "left"@
        &&& self.up@ == "up"@
        &&& self.down@ == "down"@
        &&& self.r_shoulder@ == "s"@
        &&& self.l_shoulder@ == "a"@
    }

    pub open spec fn name_of(&self, b: Button) -> Seq<char> {
        match b {
            Button::A => self.a@,
            Button::B => self.b@,
            Button::Select => self.select@,
            Button::Start => self.start@,
            Button::Right => self.right@,
            Button::Left => self.left@,
            Button::Up => self.up@,
            Button::Down => self.down@,
            Button::RShoulder => self.r_shoulder@,
            Button::LShoulder => self.l_shoulder@,
        }
    }

    /// The key name assigned to a button.
    pub fn key_name(&self, b: Button) -> (r: &String)
        ensures
            r@ == self.name_of(b),
    {
        match b {
            Button::A => &self.a,
            Button::B => &self.b,
            Button::Select => &self.select,
            Button::Start => &self.start,
            Button::Right => &self.right,
            Button::Left => &self.left,
            Button::Up => &self.up,
            Button::Down => &self.down,
            Button::RShoulder => &self.r_shoulder,
            Button::LShoulder => &self.l_shoulder,
        }
    }

    /// A copy with the same key names.
    pub fn duplicate(&self) -> (r: GbaKeyMappings)
        ensures
            r == *self,
    {
        GbaKeyMappings {
            a: self.a.clone(),
            b: self.b.clone(),
            select: self.select.clone(),
            start: self.start.clone(),
            right: self.right.clone(),
            left: self.left.clone(),
            up: self.up.clone(),
            down: self.down.clone(),
            r_shoulder: self.r_shoulder.clone(),
            l_shoulder: self.l_shoulder.clone(),
        }
    }
}

impl Default for GbaKeyMappings {
    fn default() -> (r: Self)
        ensures
            r.is_builtin(),
    {
        GbaKeyMappings {
            a: default_button_a(),
            b: default_button_b(),
            select: default_select(),
            start: default_start(),
            right: default_dpad_right(),
            left: default_dpad_left(),
            up: default_dpad_up(),
            down: default_dpad_down(),
            r_shoulder: default_button_r(),
            l_shoulder: default_button_l(),
        }
    }
}

/// The raw key name that a key token resolves through: the mapped name of
/// a symbolic button, which takes priority, or else the token itself.
pub open spec fn raw_name_for(key_str: Seq<char>, m: GbaKeyMappings) -> Seq<char> {
    match button_of(upper_text(key_str)) {
        Some(b) => m.name_of(b),
        None => key_str,
    }
}

/// Resolves a key token: a symbolic button name through the mapping, or a
/// raw keyboard key name.
pub fn parse_key(key_str: &str, key_mappings: &GbaKeyMappings) -> (r: Result<Key, SequenceError>)
    ensures
        r is Ok <==> raw_key_of(lower_text(raw_name_for(key_str@, *key_mappings))) is Some,
        r matches Ok(k) ==> raw_key_of(lower_text(raw_name_for(key_str@, *key_mappings))) == Some(
            k,
        ),
        r matches Err(e) ==> e.is_unsupported(raw_name_for(key_str@, *key_mappings)),
{
    let uppered = uppercase(key_str);
    match button_from_uppered(uppered.as_str()) {
        Some(b) => parse_raw_key(key_mappings.key_name(b).as_str()),
        None => parse_raw_key(key_str),
    }
}

} // verus!
