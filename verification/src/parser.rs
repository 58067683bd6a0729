use crate::command::Command;
use crate::device::{Device, DeviceKind};
use crate::spice_fn::Waveform;
use vstd::prelude::*;
use vstd::string::*;

pub mod check_elems;

verus! {

/// The netlist notation, line by line: what the words of a line say once
/// the line is cut into words. A name tells the kind of a device by its
/// first letter, the terminals follow the name, a value is a number with
/// an optional magnitude suffix, and a directive begins with a dot.
#[derive(Debug, Clone, Copy)]
pub struct SpiceParser;

/// The kind of device that a name announces by its first letter, in upper
/// or lower case.
pub open spec fn kind_of_letter(c: char) -> Option<DeviceKind> {
    if c == 'R' || c == 'r' {
        Some(DeviceKind::Res)
    } else if c == 'V' || c == 'v' {
        Some(DeviceKind::Vdd)
    } else if c == 'I' || c == 'i' {
        Some(DeviceKind::Idd)
    } else if c == 'L' || c == 'l' {
        Some(DeviceKind::Ind)
    } else if c == 'C' || c == 'c' {
        Some(DeviceKind::Cap)
    } else if c == 'D' || c == 'd' {
        Some(DeviceKind::Diode)
    } else if c == 'Q' || c == 'q' {
        Some(DeviceKind::NPN)
    } else if c == 'M' || c == 'm' {
        Some(DeviceKind::NMOS)
    } else {
        None
    }
}

/// The power of ten that a magnitude suffix stands for.
pub open spec fn exponent_of(p: Seq<char>) -> Option<int> {
    if p == seq!['G'] {
        Some(9)
    } else if p == seq!['M'] {
        Some(6)
    } else if p == seq!['k'] {
        Some(3)
    } else if p == seq!['h'] {
        Some(2)
    } else if p == seq!['d', 'a'] {
        Some(1)
    } else if p == seq!['d'] {
        Some(-1)
    } else if p == seq!['c'] {
        Some(-2)
    } else if p == seq!['m'] {
        Some(-3)
    } else if p == seq!['u'] {
        Some(-6)
    } else if p == seq!['n'] {
        Some(-9)
    } else if p == seq!['p'] {
        Some(-12)
    } else if p == seq!['f'] {
        Some(-15)
    } else {
        None
    }
}

/// Whether a device keeps its two terminals in the opposite order of its
/// line. A line names the positive terminal first. A voltage source keeps
/// its negative terminal first, and so do a capacitor and an inductor. A
/// current source drains its first terminal and feeds its second, so that
/// its current runs from the first terminal of the line through the source
/// to the second; a diode keeps its anode first; a resistor has no
/// direction.
pub open spec fn turns_round(kind: DeviceKind) -> bool {
    kind == DeviceKind::Vdd || kind == DeviceKind::Ind || kind == DeviceKind::Cap
}

/// The terminals of a device in the order in which they are kept, given
/// the order `line` in which its line names them. A trailing bulk terminal
/// of a transistor is dropped.
pub open spec fn kept_terminals(kind: DeviceKind, line: Seq<String>) -> Seq<String> {
    if kind.terminal_count() == 3 {
        seq![line[0], line[1], line[2]]
    } else if turns_round(kind) {
        seq![line[1], line[0]]
    } else {
        seq![line[0], line[1]]
    }
}

/// Two characters are the same letter in upper or lower case, or the same
/// character.
pub open spec fn same_letter(c: char, d: char) -> bool {
    ||| c == d
    ||| (65 <= c as u32 <= 90 && d as u32 == c as u32 + 32)
    ||| (65 <= d as u32 <= 90 && c as u32 == d as u32 + 32)
}

/// Two words are the same but for the case of their letters.
pub open spec fn same_word(a: Seq<char>, b: Seq<char>) -> bool {
    a.len() == b.len() && forall|i: int| 0 <= i < a.len() ==> same_letter(a[i], b[i])
}

/// The analysis that a directive asks for.
pub open spec fn command_of(word: Seq<char>) -> Option<Command> {
    if same_word(word, ".op"@) {
        Some(Command::Op)
    } else if same_word(word, ".dc"@) {
        Some(Command::DC)
    } else if same_word(word, ".tran"@) {
        Some(Command::Tran)
    } else {
        None
    }
}

/// The shape that the name of a time function announces.
pub open spec fn waveform_of(word: Seq<char>) -> Option<Waveform> {
    if same_word(word, "sin"@) {
        Some(Waveform::Sine)
    } else if same_word(word, "pulse"@) {
        Some(Waveform::Pulse)
    } else if same_word(word, "exp"@) {
        Some(Waveform::Exp)
    } else {
        None
    }
}

/// Compares two words without regard to the case of their letters.
pub fn matches_word(s: &str, word: &str) -> (r: bool)
    ensures
        r == same_word(s@, word@),
{
    let n: usize = s.unicode_len();
    if n != word.unicode_len() {
        return false;
    }
    let mut i: usize = 0;
    while i < n
        invariant
            i <= n,
            n == s@.len(),
            n == word@.len(),
            forall|k: int| 0 <= k < i ==> same_letter(s@[k], word@[k]),
        decreases n - i,
    {
        let c: char = s.get_char(i);
        let d: char = word.get_char(i);
        let cu: u32 = c as u32;
        let du: u32 = d as u32;
        let same = c == d || (65 <= cu && cu <= 90 && du == cu + 32) || (65 <= du && du <= 90
            && cu == du + 32);
        if !same {
            assert(!same_letter(s@[i as int], word@[i as int]));
            return false;
        }
        i += 1;
    }
    true
}

impl SpiceParser {
    /// The analysis that the directive `word` asks for, or nothing when it
    /// is no directive.
    pub fn command_kind(word: &str) -> (r: Option<Command>)
        ensures
            r == command_of(word@),
    {
        if matches_word(word, ".op") {
            Some(Command::Op)
        } else if matches_word(word, ".dc") {
            Some(Command::DC)
        } else if matches_word(word, ".tran") {
            Some(Command::Tran)
        } else {
            None
        }
    }

    /// The shape of the time function called `word`, or nothing when there
    /// is no such function.
    pub fn waveform(word: &str) -> (r: Option<Waveform>)
        ensures
            r == waveform_of(word@),
    {
        if matches_word(word, "sin") {
            Some(Waveform::Sine)
        } else if matches_word(word, "pulse") {
            Some(Waveform::Pulse)
        } else if matches_word(word, "exp") {
            Some(Waveform::Exp)
        } else {
            None
        }
    }

    /// The kind of the device called `name`, or nothing when its first
    /// letter announces none.
    pub fn device_kind(name: &str) -> (r: Option<DeviceKind>)
        ensures
            r == if name@.len() == 0 {
                None
            } else {
                kind_of_letter(name@[0])
            },
    {
        if name.unicode_len() == 0 {
            return None;
        }
        let c: char = name.get_char(0);
        if c == 'R' || c == 'r' {
            Some(DeviceKind::Res)
        } else if c == 'V' || c == 'v' {
            Some(DeviceKind::Vdd)
        } else if c == 'I' || c == 'i' {
            Some(DeviceKind::Idd)
        } else if c == 'L' || c == 'l' {
            Some(DeviceKind::Ind)
        } else if c == 'C' || c == 'c' {
            Some(DeviceKind::Cap)
        } else if c == 'D' || c == 'd' {
            Some(DeviceKind::Diode)
        } else if c == 'Q' || c == 'q' {
            Some(DeviceKind::NPN)
        } else if c == 'M' || c == 'm' {
            Some(DeviceKind::NMOS)
        } else {
            None
        }
    }

    /// The power of ten that the magnitude suffix `prefix` stands for, or
    /// nothing when it is no suffix.
    pub fn prefix_exponent(prefix: &str) -> (r: Option<i32>)
        ensures
            r.is_some() <==> exponent_of(prefix@).is_some(),
            r.is_some() ==> r.unwrap() == exponent_of(prefix@).unwrap(),
    {
        let n: usize = prefix.unicode_len();
        if n == 1 {
            let c: char = prefix.get_char(0);
            assert(prefix@ =~= seq![c]);
            letter_exponent(c)
        } else {
            proof {
                assert forall|x: char| prefix@ != seq![x] by {
                    assert(seq![x].len() == 1);
                }
            }
            if n == 2 && prefix.get_char(0) == 'd' && prefix.get_char(1) == 'a' {
                assert(prefix@ =~= seq!['d', 'a']);
                Some(1)
            } else {
                assert(prefix@ != seq!['d', 'a']) by {
                    assert(seq!['d', 'a'].len() == 2);
                    assert(seq!['d', 'a'][0] == 'd' && seq!['d', 'a'][1] == 'a');
                }
                None
            }
        }
    }

    /// Builds the device of one line of the netlist from its name and its
    /// terminals in the order of the line, or nothing when the line names
    /// too few terminals for the kind.
    pub fn element(kind: DeviceKind, name: String, line: Vec<String>) -> (r: Option<Device>)
        ensures
            r.is_some() <==> line@.len() >= kind.terminal_count(),
            r.is_some() ==> r.unwrap().wf() && r.unwrap().kind == kind && r.unwrap().name == name
                && r.unwrap().nodes@ == kept_terminals(kind, line@),
    {
        if line.len() < kind.terminals() {
            return None;
        }
        let mut nodes: Vec<String> = Vec::new();
        match kind {
            DeviceKind::NPN | DeviceKind::NMOS => {
                nodes.push(line[0].clone());
                nodes.push(line[1].clone());
                nodes.push(line[2].clone());
            },
            DeviceKind::Vdd | DeviceKind::Ind | DeviceKind::Cap => {
                nodes.push(line[1].clone());
                nodes.push(line[0].clone());
            },
            DeviceKind::Res | DeviceKind::Idd | DeviceKind::Diode => {
                nodes.push(line[0].clone());
                nodes.push(line[1].clone());
            },
        }
        assert(nodes@ =~= kept_terminals(kind, line@));
        Some(Device { kind, name, nodes })
    }
}

/// A decimal digit.
pub open spec fn is_digit(c: char) -> bool {
    48 <= c as u32 <= 57
}

/// A letter of the alphabet, in upper or lower case.
pub open spec fn is_letter(c: char) -> bool {
    65 <= c as u32 <= 90 || 97 <= c as u32 <= 122
}

/// The power of ten that a one-letter magnitude suffix stands for.
pub open spec fn letter_exponent_of(c: char) -> Option<int> {
    exponent_of(seq![c])
}

/// The number of digits that follow one another from place `from` on.
pub open spec fn digits_len(s: Seq<char>, from: int) -> int
    decreases s.len() - from,
{
    if 0 <= from < s.len() && is_digit(s[from]) {
        1 + digits_len(s, from + 1)
    } else {
        0
    }
}

/// The length of the number that a word begins with: an optional sign,
/// digits, and optionally a point with further digits; 0 when the word
/// begins with no number.
pub open spec fn number_len(s: Seq<char>) -> int {
    let sign: int = if s.len() > 0 && (s[0] == '-' || s[0] == '+') {
        1
    } else {
        0
    };
    let whole = digits_len(s, sign);
    if whole == 0 {
        0
    } else if sign + whole < s.len() && s[sign + whole] == '.' {
        sign + whole + 1 + digits_len(s, sign + whole + 1)
    } else {
        sign + whole
    }
}

/// The length of the magnitude suffix at place `from`: the two letters
/// `da` before any single letter, 0 when there is none.
pub open spec fn suffix_len(s: Seq<char>, from: int) -> int {
    if from + 1 < s.len() && s[from] == 'd' && s[from + 1] == 'a' {
        2
    } else if from < s.len() && letter_exponent_of(s[from]).is_some() {
        1
    } else {
        0
    }
}

/// The power of ten of the magnitude suffix at place `from`, 0 when there
/// is none.
pub open spec fn suffix_exponent(s: Seq<char>, from: int) -> int {
    if from + 1 < s.len() && s[from] == 'd' && s[from + 1] == 'a' {
        1
    } else if from < s.len() && letter_exponent_of(s[from]).is_some() {
        letter_exponent_of(s[from]).unwrap()
    } else {
        0
    }
}

/// Every character from place `from` on is a letter.
pub open spec fn letters_from(s: Seq<char>, from: int) -> bool {
    forall|i: int| from <= i < s.len() ==> is_letter(s[i])
}

/// A value as it is written: the text of its number and the power of ten
/// that scales it.
#[derive(Debug)]
pub struct ValueParts {
    pub number: String,
    pub exponent: i32,
}

/// Whether a word is a value: a number, then an optional magnitude suffix,
/// then letters only, which name a unit and do not count.
pub open spec fn is_value(s: Seq<char>) -> bool {
    number_len(s) > 0 && letters_from(s, number_len(s) + suffix_len(s, number_len(s)))
}

fn digit(c: char) -> (r: bool)
    ensures
        r == is_digit(c),
{
    let u: u32 = c as u32;
    48 <= u && u <= 57
}

fn letter(c: char) -> (r: bool)
    ensures
        r == is_letter(c),
{
    let u: u32 = c as u32;
    (65 <= u && u <= 90) || (97 <= u && u <= 122)
}

fn letter_exponent(c: char) -> (r: Option<i32>)
    ensures
        r.is_some() <==> letter_exponent_of(c).is_some(),
        r.is_some() ==> r.unwrap() == letter_exponent_of(c).unwrap(),
{
    proof {
        assert forall|x: char| x != c implies seq![c] != seq![x] by {
            assert(seq![c][0] == c && seq![x][0] == x);
        }
        assert(seq![c] != seq!['d', 'a']) by {
            assert(seq![c].len() != seq!['d', 'a'].len());
        }
    }
    if c == 'G' {
        Some(9)
    } else if c == 'M' {
        Some(6)
    } else if c == 'k' {
        Some(3)
    } else if c == 'h' {
        Some(2)
    } else if c == 'd' {
        Some(-1)
    } else if c == 'c' {
        Some(-2)
    } else if c == 'm' {
        Some(-3)
    } else if c == 'u' {
        Some(-6)
    } else if c == 'n' {
        Some(-9)
    } else if c == 'p' {
        Some(-12)
    } else if c == 'f' {
        Some(-15)
    } else {
        None
    }
}

/// Counts the digits that follow one another from place `from` on.
fn count_digits(s: &str, len: usize, from: usize) -> (n: usize)
    requires
        len == s@.len(),
        from <= len,
    ensures
        n == digits_len(s@, from as int),
        from + n <= len,
{
    let mut i: usize = from;
    while i < len && digit(s.get_char(i))
        invariant
            len == s@.len(),
            from <= i <= len,
            digits_len(s@, from as int) == (i - from) + digits_len(s@, i as int),
        decreases len - i,
    {
        i += 1;
    }
    i - from
}

impl SpiceParser {
    /// Splits a word that is written as a value into the text of its
    /// number and the power of ten of its magnitude suffix; nothing for a
    /// word that is no value.
    pub fn value_parts(token: &str) -> (r: Option<ValueParts>)
        ensures
            r.is_some() <==> is_value(token@),
            r.is_some() ==> r.unwrap().number@ == token@.subrange(0, number_len(token@))
                && r.unwrap().exponent == suffix_exponent(token@, number_len(token@)),
    {
        let len: usize = token.unicode_len();
        let sign: usize = if len > 0 && (token.get_char(0) == '-' || token.get_char(0) == '+') {
            1
        } else {
            0
        };
        let whole = count_digits(token, len, sign);
        if whole == 0 {
            return None;
        }
        let mut end: usize = sign + whole;
        if end < len && token.get_char(end) == '.' {
            let fraction = count_digits(token, len, end + 1);
            end = end + 1 + fraction;
        }
        assert(end == number_len(token@));
        let mut exponent: i32 = 0;
        let mut rest: usize = end;
        if len - end >= 2 && token.get_char(end) == 'd' && token.get_char(end + 1) == 'a' {
            exponent = 1;
            rest = end + 2;
        } else if end < len {
            if let Some(e) = letter_exponent(token.get_char(end)) {
                exponent = e;
                rest = end + 1;
            }
        }
        assert(rest == end + suffix_len(token@, end as int));
        assert(exponent == suffix_exponent(token@, end as int));
        let mut i: usize = rest;
        while i < len
            invariant
                len == token@.len(),
                rest <= i <= len,
                rest == number_len(token@) + suffix_len(token@, number_len(token@)),
                forall|k: int| rest <= k < i ==> is_letter(token@[k]),
            decreases len - i,
        {
            if !letter(token.get_char(i)) {
                assert(!is_letter(token@[i as int]));
                return None;
            }
            i += 1;
        }
        let number = token.substring_char(0, end).to_owned();
        Some(ValueParts { number, exponent })
    }
}

/// A value as a pair of the text of its number and its power of ten.
pub open spec fn value_of(s: Seq<char>) -> Option<(Seq<char>, int)> {
    if is_value(s) {
        Some((s.subrange(0, number_len(s)), suffix_exponent(s, number_len(s))))
    } else {
        None
    }
}

/// The values that a sequence of words is written as, or nothing when one
/// of the words is no value.
pub open spec fn values_of(ws: Seq<Seq<char>>) -> Option<Seq<(Seq<char>, int)>> {
    if forall|i: int| 0 <= i < ws.len() ==> is_value(#[trigger] ws[i]) {
        Some(Seq::new(ws.len(), |i: int| value_of(ws[i]).unwrap()))
    } else {
        None
    }
}

/// A word without the letter and the equals sign that may introduce the
/// value of a resistor, an inductor or a capacitor.
pub open spec fn stripped(s: Seq<char>, letter: char) -> Seq<char> {
    if s.len() >= 2 && same_letter(s[0], letter) && s[1] == '=' {
        s.skip(2)
    } else {
        s
    }
}

/// The letter that may introduce the value of a device.
pub open spec fn value_letter(kind: DeviceKind) -> char {
    match kind {
        DeviceKind::Res => 'r',
        DeviceKind::Ind => 'l',
        _ => 'c',
    }
}

/// The texts of a sequence of words.
pub open spec fn texts(ws: Seq<String>) -> Seq<Seq<char>> {
    ws.map_values(|w: String| w@)
}

impl ValueParts {
    /// The value as a pair of the text of its number and its power of ten.
    pub open spec fn model(&self) -> (Seq<char>, int) {
        (self.number@, self.exponent as int)
    }
}

/// The values as a sequence of pairs.
pub open spec fn models(vs: Seq<ValueParts>) -> Seq<(Seq<char>, int)> {
    vs.map_values(|v: ValueParts| v.model())
}

/// What the line of a device says: the device, its value as written, and
/// for a source that follows a time function the shape and the parameters
/// of the function.
#[derive(Debug)]
pub struct Element {
    pub device: Device,
    pub value: Option<ValueParts>,
    pub waveform: Option<Waveform>,
    pub params: Vec<ValueParts>,
}

/// What the line of a device says, in mathematical terms.
pub struct ElementModel {
    pub kind: DeviceKind,
    pub name: Seq<char>,
    pub nodes: Seq<Seq<char>>,
    pub value: Option<(Seq<char>, int)>,
    pub waveform: Option<Waveform>,
    pub params: Seq<(Seq<char>, int)>,
}

impl Element {
    pub open spec fn model(&self) -> ElementModel {
        ElementModel {
            kind: self.device.kind,
            name: self.device.name@,
            nodes: texts(self.device.nodes@),
            value: match self.value {
                Some(v) => Some(v.model()),
                None => None,
            },
            waveform: self.waveform,
            params: models(self.params@),
        }
    }
}

/// The terminals of a device in the order in which they are kept, as
/// texts.
pub open spec fn kept_texts(kind: DeviceKind, w: Seq<Seq<char>>) -> Seq<Seq<char>> {
    if kind.terminal_count() == 3 {
        seq![w[1], w[2], w[3]]
    } else if turns_round(kind) {
        seq![w[2], w[1]]
    } else {
        seq![w[1], w[2]]
    }
}

/// What the words of a device line say, or nothing when they form no
/// device line. The first word names the device and by its first letter
/// the kind; the terminals follow. A resistor, an inductor and a capacitor
/// end with one value, which a letter and an equals sign may introduce. A
/// source ends with one value or with the name of a time function and its
/// parameters. What follows the terminals of a diode or a transistor is
/// not read.
pub open spec fn element_of(w: Seq<Seq<char>>) -> Option<ElementModel> {
    if w.len() == 0 || w[0].len() == 0 || kind_of_letter(w[0][0]).is_none() {
        None
    } else {
        let kind = kind_of_letter(w[0][0]).unwrap();
        let first = 1 + kind.terminal_count();
        if w.len() < first {
            None
        } else {
            let base = ElementModel {
                kind,
                name: w[0],
                nodes: kept_texts(kind, w),
                value: None,
                waveform: None,
                params: Seq::empty(),
            };
            match kind {
                DeviceKind::Diode | DeviceKind::NPN | DeviceKind::NMOS => Some(base),
                DeviceKind::Res | DeviceKind::Ind | DeviceKind::Cap => {
                    if w.len() == first + 1 && is_value(
                        stripped(w[first as int], value_letter(kind)),
                    ) {
                        Some(
                            ElementModel {
                                value: value_of(stripped(w[first as int], value_letter(kind))),
                                ..base
                            },
                        )
                    } else {
                        None
                    }
                },
                DeviceKind::Vdd | DeviceKind::Idd => {
                    if w.len() == first + 1 {
                        if is_value(w[first as int]) {
                            Some(ElementModel { value: value_of(w[first as int]), ..base })
                        } else {
                            None
                        }
                    } else if w.len() > first + 1 && waveform_of(w[first as int]).is_some()
                        && w.len() == first + 1 + waveform_of(w[first as int]).unwrap().param_count()
                        && values_of(w.skip(first as int + 1)).is_some() {
                        Some(
                            ElementModel {
                                waveform: waveform_of(w[first as int]),
                                params: values_of(w.skip(first as int + 1)).unwrap(),
                                ..base
                            },
                        )
                    } else {
                        None
                    }
                },
            }
        }
    }
}

/// What a directive says: the analysis, the source that a sweep names, and
/// the values as written.
#[derive(Debug)]
pub struct Directive {
    pub command: Command,
    pub source: Option<String>,
    pub values: Vec<ValueParts>,
}

/// What a directive says, in mathematical terms.
pub struct DirectiveModel {
    pub command: Command,
    pub source: Option<Seq<char>>,
    pub values: Seq<(Seq<char>, int)>,
}

impl Directive {
    pub open spec fn model(&self) -> DirectiveModel {
        DirectiveModel {
            command: self.command,
            source: match self.source {
                Some(s) => Some(s@),
                None => None,
            },
            values: models(self.values@),
        }
    }
}

/// What the words of a directive say, or nothing when they form no
/// directive: the operating point takes no argument, a sweep the name of a
/// source and three values, a transient run two values.
pub open spec fn directive_of(w: Seq<Seq<char>>) -> Option<DirectiveModel> {
    if w.len() == 0 {
        None
    } else {
        match command_of(w[0]) {
            Some(Command::Op) => if w.len() == 1 {
                Some(DirectiveModel { command: Command::Op, source: None, values: Seq::empty() })
            } else {
                None
            },
            Some(Command::DC) => if w.len() == 5 && values_of(w.skip(2)).is_some() {
                Some(
                    DirectiveModel {
                        command: Command::DC,
                        source: Some(w[1]),
                        values: values_of(w.skip(2)).unwrap(),
                    },
                )
            } else {
                None
            },
            Some(Command::Tran) => if w.len() == 3 && values_of(w.skip(1)).is_some() {
                Some(
                    DirectiveModel {
                        command: Command::Tran,
                        source: None,
                        values: values_of(w.skip(1)).unwrap(),
                    },
                )
            } else {
                None
            },
            None => None,
        }
    }
}

/// Reads the words from place `from` on as values.
fn read_values(words: &Vec<String>, from: usize) -> (r: Option<Vec<ValueParts>>)
    requires
        from <= words@.len(),
    ensures
        r.is_some() <==> values_of(texts(words@).skip(from as int)).is_some(),
        r.is_some() ==> models(r.unwrap()@) == values_of(texts(words@).skip(from as int)).unwrap(),
{
    let ghost tail = texts(words@).skip(from as int);
    let mut out: Vec<ValueParts> = Vec::new();
    let mut i: usize = from;
    while i < words.len()
        invariant
            from <= i <= words@.len(),
            tail == texts(words@).skip(from as int),
            out@.len() == i - from,
            forall|k: int| 0 <= k < i - from ==> is_value(#[trigger] tail[k]),
            forall|k: int|
                0 <= k < i - from ==> (#[trigger] out@[k]).model() == value_of(tail[k]).unwrap(),
        decreases words@.len() - i,
    {
        assert(tail[i - from] == words@[i as int]@);
        match SpiceParser::value_parts(words[i].as_str()) {
            Some(v) => {
                out.push(v);
            },
            None => {
                return None;
            },
        }
        i += 1;
    }
    assert(models(out@) =~= values_of(tail).unwrap());
    Some(out)
}

/// Takes a leading letter and equals sign off a word.
fn strip<'a>(word: &'a str, letter: char) -> (r: &'a str)
    ensures
        r@ == stripped(word@, letter),
{
    let n: usize = word.unicode_len();
    if n >= 2 {
        let c: char = word.get_char(0);
        let cu: u32 = c as u32;
        let lu: u32 = letter as u32;
        let same = c == letter || (65 <= cu && cu <= 90 && lu == cu + 32) || (65 <= lu && lu <= 90
            && cu == lu + 32);
        if same && word.get_char(1) == '=' {
            let r = word.substring_char(2, n);
            assert(r@ =~= word@.skip(2));
            return r;
        }
    }
    word
}

impl SpiceParser {
    /// Reads the words of a device line.
    pub fn parse_element(words: &Vec<String>) -> (r: Option<Element>)
        ensures
            r.is_some() <==> element_of(texts(words@)).is_some(),
            r.is_some() ==> r.unwrap().model() == element_of(texts(words@)).unwrap(),
            r.is_some() ==> r.unwrap().device.wf(),
    {
        let ghost w = texts(words@);
        if words.len() == 0 {
            return None;
        }
        assert(w[0] == words@[0]@);
        let kind = match SpiceParser::device_kind(words[0].as_str()) {
            Some(k) => k,
            None => {
                return None;
            },
        };
        let first: usize = 1 + kind.terminals();
        if words.len() < first {
            return None;
        }
        let mut line: Vec<String> = Vec::new();
        let mut i: usize = 1;
        while i < first
            invariant
                1 <= i <= first <= words@.len(),
                line@.len() == i - 1,
                forall|k: int| 0 <= k < i - 1 ==> (#[trigger] line@[k]) == words@[k + 1],
            decreases first - i,
        {
            line.push(words[i].clone());
            i += 1;
        }
        let device = match SpiceParser::element(kind, words[0].clone(), line) {
            Some(d) => d,
            None => {
                return None;
            },
        };
        proof {
            assert(w[1] == words@[1]@ && w[2] == words@[2]@);
            if first == 4 {
                assert(w[3] == words@[3]@);
            }
            assert(texts(device.nodes@) =~= kept_texts(kind, w));
        }
        match kind {
            DeviceKind::Diode | DeviceKind::NPN | DeviceKind::NMOS => {
                let e = Element { device, value: None, waveform: None, params: Vec::new() };
                assert(models(e.params@) =~= Seq::empty());
                Some(e)
            },
            DeviceKind::Res | DeviceKind::Ind | DeviceKind::Cap => {
                if words.len() != first + 1 {
                    return None;
                }
                assert(w[first as int] == words@[first as int]@);
                let letter: char = match kind {
                    DeviceKind::Res => 'r',
                    DeviceKind::Ind => 'l',
                    _ => 'c',
                };
                match SpiceParser::value_parts(strip(words[first].as_str(), letter)) {
                    Some(v) => {
                        let e = Element {
                            device,
                            value: Some(v),
                            waveform: None,
                            params: Vec::new(),
                        };
                        assert(models(e.params@) =~= Seq::empty());
                        Some(e)
                    },
                    None => None,
                }
            },
            DeviceKind::Vdd | DeviceKind::Idd => {
                if words.len() == first + 1 {
                    assert(w[first as int] == words@[first as int]@);
                    match SpiceParser::value_parts(words[first].as_str()) {
                        Some(v) => {
                            let e = Element {
                                device,
                                value: Some(v),
                                waveform: None,
                                params: Vec::new(),
                            };
                            assert(models(e.params@) =~= Seq::empty());
                            Some(e)
                        },
                        None => None,
                    }
                } else if words.len() > first + 1 {
                    assert(w[first as int] == words@[first as int]@);
                    let shape = match SpiceParser::waveform(words[first].as_str()) {
                        Some(s) => s,
                        None => {
                            return None;
                        },
                    };
                    if words.len() != first + 1 + shape.params() {
                        return None;
                    }
                    match read_values(words, first + 1) {
                        Some(params) => Some(
                            Element { device, value: None, waveform: Some(shape), params },
                        ),
                        None => None,
                    }
                } else {
                    None
                }
            },
        }
    }

    /// Reads the words of a directive.
    pub fn parse_command(words: &Vec<String>) -> (r: Option<Directive>)
        ensures
            r.is_some() <==> directive_of(texts(words@)).is_some(),
            r.is_some() ==> r.unwrap().model() == directive_of(texts(words@)).unwrap(),
    {
        let ghost w = texts(words@);
        if words.len() == 0 {
            return None;
        }
        assert(w[0] == words@[0]@);
        match SpiceParser::command_kind(words[0].as_str()) {
            Some(Command::Op) => {
                if words.len() == 1 {
                    let d = Directive { command: parse_op_cmd(), source: None, values: Vec::new() };
                    assert(models(d.values@) =~= Seq::empty());
                    Some(d)
                } else {
                    None
                }
            },
            Some(Command::DC) => {
                if words.len() != 5 {
                    return None;
                }
                assert(w[1] == words@[1]@);
                match read_values(words, 2) {
                    Some(values) => Some(
                        Directive {
                            command: Command::DC,
                            source: Some(words[1].clone()),
                            values,
                        },
                    ),
                    None => None,
                }
            },
            Some(Command::Tran) => {
                if words.len() != 3 {
                    return None;
                }
                match read_values(words, 1) {
                    Some(values) => Some(
                        Directive { command: Command::Tran, source: None, values },
                    ),
                    None => None,
                }
            },
            None => None,
        }
    }
}

/// The command that asks for the operating point.
pub fn parse_op_cmd() -> (c: Command)
    ensures
        c == Command::Op,
{
    Command::Op
}

} // verus!
