use crate::text::push_chars;
use crate::util::bits;
use std::collections::HashMap;
use vstd::prelude::*;

verus! {

broadcast use vstd::std_specs::hash::group_hash_axioms;

/// A graphic set that a register can hold.
#[derive(Debug, Clone, Copy, PartialEq, Eq, Structural)]
pub enum Charset {
    Kanji,
    Alnum,
    Hiragana,
    Katakana,
    MosaicA,
    MosaicB,
    MosaicC,
    MosaicD,
    ProportionalAlnum,
    ProportionalHiragana,
    ProportionalKatakana,
    JISX0201,
    JISGokanKanji1,
    JISGokanKanji2,
    Symbol,
    DRCS(u8),
    Macro,
}

/// One of the four registers that hold a designated graphic set.
#[derive(Debug, Clone, Copy, PartialEq, Eq, Structural)]
pub enum DesignatePos {
    G0,
    G1,
    G2,
    G3,
}

/// One of the two halves of the code table that a register is invoked into.
#[derive(Debug, Clone, Copy, PartialEq, Eq, Structural)]
pub enum InvokePos {
    GL,
    GR,
}

/// Why a text could not be decoded.
#[derive(Debug, Clone, Copy, PartialEq, Eq, Structural)]
pub enum Error {
    /// The code has no character in the graphic set.
    UnknownCodepoint(u32, Charset),
    /// The graphic set cannot be decoded, or the final byte of a designation
    /// names no graphic set at all.
    UnimplementedCharset(Option<Charset>),
    /// The control is not carried out.
    UnimplementedControl(u8),
    /// The input ends inside a code or a sequence of bytes that belong
    /// together, or the sequence is not one of the defined ones.
    MalformedShortBytes,
}

/// The four registers and what is invoked where.
#[derive(Debug, Clone, Copy, PartialEq, Eq, Structural)]
pub struct GraphicSets {
    pub g0: Charset,
    pub g1: Charset,
    pub g2: Charset,
    pub g3: Charset,
    pub gl: DesignatePos,
    pub gr: DesignatePos,
    pub single: Option<DesignatePos>,
}

/// The changes that one code asks for; `None` leaves a part as it is.
#[derive(Debug, Clone, Copy, PartialEq, Eq, Structural)]
pub struct StateModification {
    pub single: Option<DesignatePos>,
    pub gl: Option<DesignatePos>,
    pub gr: Option<DesignatePos>,
    pub g0: Option<Charset>,
    pub g1: Option<Charset>,
    pub g2: Option<Charset>,
    pub g3: Option<Charset>,
}

/// The code tables of the two-byte sets, as plain data.
pub struct CodeTables {
    kanji: HashMap<u32, Vec<char>>,
    symbols: HashMap<u16, char>,
}

/// What a [`CodeTables`] holds: the characters of each JIS X 0213 code point
/// (plane in bits 16 and up) and the character of each ARIB symbol code.
pub struct CodeTablesView {
    pub kanji: Map<u32, Seq<char>>,
    pub symbols: Map<u16, char>,
}

/// The decoder of one text: its registers and the DRCS replacements in force.
pub struct AribDecoder {
    state: GraphicSets,
    drcs_map: HashMap<u16, String>,
}

// Escape sequences.
/// Locking shift 2, after ESC: invokes G2 into the low half.
pub const LS2: u8 = 0x6e;
/// Locking shift 3, after ESC: invokes G3 into the low half.
pub const LS3: u8 = 0x6f;
/// Locking shift 1 right, after ESC: invokes G1 into the high half.
pub const LS1R: u8 = 0x7e;
/// Locking shift 2 right, after ESC: invokes G2 into the high half.
pub const LS2R: u8 = 0x7d;
/// Locking shift 3 right, after ESC: invokes G3 into the high half.
pub const LS3R: u8 = 0x7c;

// C0 controls.
/// Null.
pub const NUL: u8 = 0x0;
/// Bell.
pub const BEL: u8 = 0x7;
/// Active position backward.
pub const APB: u8 = 0x8;
/// Active position forward.
pub const APF: u8 = 0x9;
/// Active position down.
pub const APD: u8 = 0xa;
/// Active position up.
pub const APU: u8 = 0xb;
/// Clear screen.
pub const CS: u8 = 0xc;
/// Active position return.
pub const APR: u8 = 0xd;
/// Locking shift 1: invokes G1 into the low half.
pub const LS1: u8 = 0xe;
/// Locking shift 0: invokes G0 into the low half.
pub const LS0: u8 = 0xf;
/// Parameterized active position forward.
pub const PAPF: u8 = 0x16;
/// Cancel.
pub const CAN: u8 = 0x18;
/// Single shift 2.
pub const SS2: u8 = 0x19;
/// Escape.
pub const ESC: u8 = 0x1b;
/// Active position set.
pub const APS: u8 = 0x1c;
/// Single shift 3.
pub const SS3: u8 = 0x1d;
/// Record separator.
pub const RS: u8 = 0x1e;
/// Unit separator.
pub const US: u8 = 0x1f;
/// Space.
pub const SP: u8 = 0x20;
/// Delete.
pub const DEL: u8 = 0x7f;

// C1 controls.
/// Black foreground, the first of the eight colours.
pub const BKF: u8 = 0x80;
/// White foreground, the last of the eight colours.
pub const WHF: u8 = 0x87;
/// Small size.
pub const SSZ: u8 = 0x88;
/// Middle size.
pub const MSZ: u8 = 0x89;
/// Normal size.
pub const NSZ: u8 = 0x8a;
/// Character size controls.
pub const SZX: u8 = 0x8b;
/// Colour controls.
pub const COL: u8 = 0x90;
/// Flashing control.
pub const FLC: u8 = 0x91;
/// Conceal display controls.
pub const CDC: u8 = 0x92;
/// Pattern polarity controls.
pub const POL: u8 = 0x93;
/// Writing mode modification.
pub const WMM: u8 = 0x94;
/// Macro command.
pub const MACRO: u8 = 0x95;
/// Highlighting character block.
pub const HLC: u8 = 0x97;
/// Repeat character.
pub const RPC: u8 = 0x98;
/// Stop lining.
pub const SPL: u8 = 0x99;
/// Start lining.
pub const STL: u8 = 0x9a;
/// Control sequence introducer.
pub const CSI: u8 = 0x9b;
/// Time controls.
pub const TIME: u8 = 0x9d;

/// What one control or one code does: where the next one starts, the text
/// that is added, and the registers afterwards.
pub struct Step {
    pub next: int,
    pub text: Seq<char>,
    pub state: GraphicSets,
}

/// What one code of a graphic set gives: where the next one starts, the text
/// that is added, and the changes to the registers that it asks for.
pub struct Glyph {
    pub next: int,
    pub text: Seq<char>,
    pub change: StateModification,
}

/// A byte with its top bit cleared.
pub open spec fn low7(b: u8) -> u8 {
    (b % 128) as u8
}

/// A byte is a control when its low seven bits are at most 0x20 or are 0x7F.
pub open spec fn spec_is_control(b: u8) -> bool {
    low7(b) <= 0x20 || low7(b) == 0x7f
}

/// The graphic set that the final byte of a designation names.
pub open spec fn spec_g_set(f: u8) -> Option<Charset> {
    if f == 0x42 {
        Some(Charset::Kanji)
    } else if f == 0x4a {
        Some(Charset::Alnum)
    } else if f == 0x30 {
        Some(Charset::Hiragana)
    } else if f == 0x31 {
        Some(Charset::Katakana)
    } else if f == 0x32 {
        Some(Charset::MosaicA)
    } else if f == 0x33 {
        Some(Charset::MosaicB)
    } else if f == 0x34 {
        Some(Charset::MosaicC)
    } else if f == 0x35 {
        Some(Charset::MosaicD)
    } else if f == 0x36 {
        Some(Charset::ProportionalAlnum)
    } else if f == 0x37 {
        Some(Charset::ProportionalHiragana)
    } else if f == 0x38 {
        Some(Charset::ProportionalKatakana)
    } else if f == 0x49 {
        Some(Charset::JISX0201)
    } else if f == 0x39 {
        Some(Charset::JISGokanKanji1)
    } else if f == 0x3a {
        Some(Charset::JISGokanKanji2)
    } else if f == 0x3b {
        Some(Charset::Symbol)
    } else {
        None
    }
}

/// The set that the final byte of a DRCS designation names.
pub open spec fn spec_drcs_set(f: u8) -> Option<Charset> {
    if 0x40 <= f <= 0x4f {
        Some(Charset::DRCS((f - 0x40) as u8))
    } else if f == 0x70 {
        Some(Charset::Macro)
    } else {
        None
    }
}

/// The register that the intermediate byte 0x28 to 0x2B of a designation names.
pub open spec fn spec_register(b: u8) -> DesignatePos {
    if b == 0x28 {
        DesignatePos::G0
    } else if b == 0x29 {
        DesignatePos::G1
    } else if b == 0x2a {
        DesignatePos::G2
    } else {
        DesignatePos::G3
    }
}

/// The position of the first byte at or after `i` that is 0x40 or more.
pub open spec fn spec_final_byte(s: Seq<u8>, i: int) -> Option<int>
    decreases s.len() - i,
{
    if i < 0 || i >= s.len() {
        None
    } else if s[i] >= 0x40 {
        Some(i)
    } else {
        spec_final_byte(s, i + 1)
    }
}

impl GraphicSets {
    /// The registers at the start of a caption text.
    pub open spec fn caption_initial() -> GraphicSets {
        GraphicSets {
            g0: Charset::Kanji,
            g1: Charset::Alnum,
            g2: Charset::Hiragana,
            g3: Charset::Macro,
            gl: DesignatePos::G0,
            gr: DesignatePos::G2,
            single: None,
        }
    }

    /// The registers at the start of a text of the programme guide.
    pub open spec fn event_initial() -> GraphicSets {
        GraphicSets {
            g0: Charset::JISGokanKanji1,
            g1: Charset::Alnum,
            g2: Charset::Hiragana,
            g3: Charset::Katakana,
            gl: DesignatePos::G0,
            gr: DesignatePos::G2,
            single: None,
        }
    }

    /// The set held by a register.
    pub open spec fn spec_get(self, pos: DesignatePos) -> Charset {
        match pos {
            DesignatePos::G0 => self.g0,
            DesignatePos::G1 => self.g1,
            DesignatePos::G2 => self.g2,
            DesignatePos::G3 => self.g3,
        }
    }

    /// The registers after `cs` has been designated into `dst`.
    pub open spec fn spec_designate(self, dst: DesignatePos, cs: Charset) -> GraphicSets {
        match dst {
            DesignatePos::G0 => GraphicSets { g0: cs, ..self },
            DesignatePos::G1 => GraphicSets { g1: cs, ..self },
            DesignatePos::G2 => GraphicSets { g2: cs, ..self },
            DesignatePos::G3 => GraphicSets { g3: cs, ..self },
        }
    }

    /// The set that decodes a graphic byte `b`: the single-shifted register
    /// for a low byte if one is pending, else the register invoked into the
    /// half that `b` lies in.
    pub open spec fn spec_select(self, b: u8) -> Charset {
        if b < 0x80 {
            match self.single {
                Some(pos) => self.spec_get(pos),
                None => self.spec_get(self.gl),
            }
        } else {
            self.spec_get(self.gr)
        }
    }

    /// The registers once a graphic byte `b` has picked its set: a low byte
    /// uses up a pending single shift.
    pub open spec fn spec_selected(self, b: u8) -> GraphicSets {
        if b < 0x80 {
            GraphicSets { single: None, ..self }
        } else {
            self
        }
    }

    /// The registers after the changes of `m` have been made.
    pub open spec fn spec_apply(self, m: StateModification) -> GraphicSets {
        GraphicSets {
            g0: match m.g0 {
                Some(cs) => cs,
                None => self.g0,
            },
            g1: match m.g1 {
                Some(cs) => cs,
                None => self.g1,
            },
            g2: match m.g2 {
                Some(cs) => cs,
                None => self.g2,
            },
            g3: match m.g3 {
                Some(cs) => cs,
                None => self.g3,
            },
            gl: match m.gl {
                Some(pos) => pos,
                None => self.gl,
            },
            gr: match m.gr {
                Some(pos) => pos,
                None => self.gr,
            },
            single: match m.single {
                Some(pos) => Some(pos),
                None => self.single,
            },
        }
    }

    /// The set held by the register `pos`.
    pub fn get(&self, pos: DesignatePos) -> (cs: Charset)
        ensures
            cs == self.spec_get(pos),
    {
        match pos {
            DesignatePos::G0 => self.g0,
            DesignatePos::G1 => self.g1,
            DesignatePos::G2 => self.g2,
            DesignatePos::G3 => self.g3,
        }
    }

    /// Designates `cs` into the register `dst`.
    pub fn designate(&mut self, dst: DesignatePos, cs: Charset)
        ensures
            *final(self) == old(self).spec_designate(dst, cs),
    {
        match dst {
            DesignatePos::G0 => self.g0 = cs,
            DesignatePos::G1 => self.g1 = cs,
            DesignatePos::G2 => self.g2 = cs,
            DesignatePos::G3 => self.g3 = cs,
        }
    }
}

impl StateModification {
    /// The modification that changes nothing.
    pub open spec fn spec_new() -> StateModification {
        StateModification {
            single: None,
            gl: None,
            gr: None,
            g0: None,
            g1: None,
            g2: None,
            g3: None,
        }
    }

    /// What a macro code adds to the changes asked for: kanji, `g1`, hiragana
    /// and the macro set in the four registers, G0 in the low half and G2 in
    /// the high half.
    pub open spec fn spec_macro(self, g1: Charset) -> StateModification {
        StateModification {
            gl: Some(DesignatePos::G0),
            gr: Some(DesignatePos::G2),
            g0: Some(Charset::Kanji),
            g1: Some(g1),
            g2: Some(Charset::Hiragana),
            g3: Some(Charset::Macro),
            ..self
        }
    }

    /// The changes asked for, with `cs` to be designated into the register `dst`.
    pub open spec fn spec_designate(self, dst: DesignatePos, cs: Charset) -> StateModification {
        match dst {
            DesignatePos::G0 => StateModification { g0: Some(cs), ..self },
            DesignatePos::G1 => StateModification { g1: Some(cs), ..self },
            DesignatePos::G2 => StateModification { g2: Some(cs), ..self },
            DesignatePos::G3 => StateModification { g3: Some(cs), ..self },
        }
    }

    /// The changes asked for, with the register `src` to be invoked into the half `dst`.
    pub open spec fn spec_lock(self, dst: InvokePos, src: DesignatePos) -> StateModification {
        match dst {
            InvokePos::GL => StateModification { gl: Some(src), ..self },
            InvokePos::GR => StateModification { gr: Some(src), ..self },
        }
    }

    /// The modification that changes nothing.
    pub fn new() -> (m: StateModification)
        ensures
            m == Self::spec_new(),
    {
        StateModification {
            single: None,
            gl: None,
            gr: None,
            g0: None,
            g1: None,
            g2: None,
            g3: None,
        }
    }

    /// Asks for `cs` to be designated into the register `dst`.
    pub fn designate(&mut self, dst: DesignatePos, cs: Charset)
        ensures
            *final(self) == old(self).spec_designate(dst, cs),
    {
        match dst {
            DesignatePos::G0 => self.g0 = Some(cs),
            DesignatePos::G1 => self.g1 = Some(cs),
            DesignatePos::G2 => self.g2 = Some(cs),
            DesignatePos::G3 => self.g3 = Some(cs),
        }
    }

    /// Asks for the register `src` to be invoked into the half `dst`.
    pub fn lock(&mut self, dst: InvokePos, src: DesignatePos)
        ensures
            *final(self) == old(self).spec_lock(dst, src),
    {
        match dst {
            InvokePos::GL => self.gl = Some(src),
            InvokePos::GR => self.gr = Some(src),
        }
    }

    /// Asks for the register `src` to decode the next low code only.
    pub fn single(&mut self, src: DesignatePos)
        ensures
            *final(self) == (StateModification { single: Some(src), ..*old(self) }),
    {
        self.single = Some(src);
    }
}


/// What a control byte stands for.
#[derive(Debug, Clone, Copy, PartialEq, Eq, Structural)]
pub enum ControlKind {
    /// Takes no parameter and leaves no trace in the text.
    Ignored,
    /// Takes no parameter and stands for one character of the text.
    Emit(char),
    /// Invokes a register into the low half.
    InvokeLow(DesignatePos),
    /// Lets a register decode the next low code only.
    SingleShift(DesignatePos),
    /// Starts an escape sequence.
    Escape,
    /// Takes one parameter byte and stands for that many tabs.
    Tabs,
    /// Takes two parameter bytes and stands for a line break.
    Position,
    /// Takes one parameter byte.
    OneParameter,
    /// Takes one parameter byte, and a second one if the first is 0x20.
    OneOrTwoParameters,
    /// Takes the bytes up to and including the first that is 0x40 or more.
    Sequence,
    /// Takes a parameter byte that tells what follows.
    Time,
    /// Is not carried out.
    Unimplemented,
}

/// The table of the control bytes. A byte that the table does not list is
/// not carried out; among them are 0xA0 and 0xFF, which count as controls
/// but are no control of either set.
pub open spec fn spec_control_kind(b: u8) -> ControlKind {
    if b == LS0 {
        ControlKind::InvokeLow(DesignatePos::G0)
    } else if b == LS1 {
        ControlKind::InvokeLow(DesignatePos::G1)
    } else if b == SS2 {
        ControlKind::SingleShift(DesignatePos::G2)
    } else if b == SS3 {
        ControlKind::SingleShift(DesignatePos::G3)
    } else if b == ESC {
        ControlKind::Escape
    } else if b == BEL {
        ControlKind::Emit('\x07')
    } else if b == APB {
        ControlKind::Emit('\x08')
    } else if b == APF {
        ControlKind::Emit('\t')
    } else if b == APD {
        ControlKind::Emit('\n')
    } else if b == APR {
        ControlKind::Emit('\r')
    } else if b == SP {
        ControlKind::Emit(' ')
    } else if b == PAPF {
        ControlKind::Tabs
    } else if b == APS {
        ControlKind::Position
    } else if b == SZX || b == FLC || b == POL || b == WMM || b == HLC {
        ControlKind::OneParameter
    } else if b == COL || b == CDC {
        ControlKind::OneOrTwoParameters
    } else if b == CSI {
        ControlKind::Sequence
    } else if b == TIME {
        ControlKind::Time
    } else if b == NUL || b == APU || b == CS || b == CAN || b == RS || b == US || b == DEL || (BKF
        <= b <= WHF) || b == SSZ || b == MSZ || b == NSZ || b == SPL {
        ControlKind::Ignored
    } else {
        ControlKind::Unimplemented
    }
}

/// A step that adds no text.
pub open spec fn silent(next: int, state: GraphicSets) -> Result<Step, Error> {
    Ok(Step { next, text: Seq::empty(), state })
}

/// The designation whose final byte stands at `pos`: a graphic set, or after
/// the byte 0x20 a DRCS set, goes into the register `dst`.
pub open spec fn spec_designation(st: GraphicSets, s: Seq<u8>, pos: int, dst: DesignatePos) -> Result<
    Step,
    Error,
> {
    if pos >= s.len() {
        Err(Error::MalformedShortBytes)
    } else if s[pos] == 0x20 {
        if pos + 1 >= s.len() {
            Err(Error::MalformedShortBytes)
        } else {
            match spec_drcs_set(s[pos + 1]) {
                Some(cs) => silent(pos + 2, st.spec_designate(dst, cs)),
                None => Err(Error::UnimplementedCharset(None)),
            }
        }
    } else {
        match spec_g_set(s[pos]) {
            Some(cs) => silent(pos + 1, st.spec_designate(dst, cs)),
            None => Err(Error::UnimplementedCharset(None)),
        }
    }
}

/// The escape sequence whose first byte after ESC stands at `pos`.
pub open spec fn spec_escape(st: GraphicSets, s: Seq<u8>, pos: int) -> Result<Step, Error> {
    if pos >= s.len() {
        Err(Error::MalformedShortBytes)
    } else if s[pos] == LS2 {
        silent(pos + 1, GraphicSets { gl: DesignatePos::G2, ..st })
    } else if s[pos] == LS3 {
        silent(pos + 1, GraphicSets { gl: DesignatePos::G3, ..st })
    } else if s[pos] == LS1R {
        silent(pos + 1, GraphicSets { gr: DesignatePos::G1, ..st })
    } else if s[pos] == LS2R {
        silent(pos + 1, GraphicSets { gr: DesignatePos::G2, ..st })
    } else if s[pos] == LS3R {
        silent(pos + 1, GraphicSets { gr: DesignatePos::G3, ..st })
    } else if 0x28 <= s[pos] <= 0x2b {
        spec_designation(st, s, pos + 1, spec_register(s[pos]))
    } else if s[pos] == 0x24 {
        if pos + 1 >= s.len() {
            Err(Error::MalformedShortBytes)
        } else if s[pos + 1] == 0x28 {
            if pos + 2 < s.len() && s[pos + 2] == 0x20 {
                spec_designation(st, s, pos + 2, DesignatePos::G0)
            } else {
                Err(Error::MalformedShortBytes)
            }
        } else if 0x29 <= s[pos + 1] <= 0x2b {
            spec_designation(st, s, pos + 2, spec_register(s[pos + 1]))
        } else {
            match spec_g_set(s[pos + 1]) {
                Some(cs) => silent(pos + 2, st.spec_designate(DesignatePos::G0, cs)),
                None => Err(Error::UnimplementedCharset(None)),
            }
        }
    } else {
        Err(Error::MalformedShortBytes)
    }
}

/// What the control at `pos` does to the text and the registers.
pub open spec fn spec_control(st: GraphicSets, s: Seq<u8>, pos: int) -> Result<Step, Error> {
    if pos < 0 || pos >= s.len() {
        Err(Error::MalformedShortBytes)
    } else {
        spec_control_at(st, s, pos)
    }
}

/// What the control at `pos` does, for a position inside the input.
pub open spec fn spec_control_at(st: GraphicSets, s: Seq<u8>, pos: int) -> Result<Step, Error>
    recommends
        0 <= pos < s.len(),
{
    match spec_control_kind(s[pos]) {
        ControlKind::Ignored => silent(pos + 1, st),
        ControlKind::Emit(c) => Ok(Step { next: pos + 1, text: seq![c], state: st }),
        ControlKind::InvokeLow(g) => silent(pos + 1, GraphicSets { gl: g, ..st }),
        ControlKind::SingleShift(g) => silent(pos + 1, GraphicSets { single: Some(g), ..st }),
        ControlKind::Escape => spec_escape(st, s, pos + 1),
        ControlKind::Tabs => if pos + 1 < s.len() {
            Ok(Step { next: pos + 2, text: Seq::new(s[pos + 1] as nat, |i: int| '\t'), state: st })
        } else {
            Err(Error::MalformedShortBytes)
        },
        ControlKind::Position => if pos + 2 < s.len() {
            Ok(Step { next: pos + 3, text: seq!['\n'], state: st })
        } else {
            Err(Error::MalformedShortBytes)
        },
        ControlKind::OneParameter => if pos + 1 < s.len() {
            silent(pos + 2, st)
        } else {
            Err(Error::MalformedShortBytes)
        },
        ControlKind::OneOrTwoParameters => if pos + 1 < s.len() && s[pos + 1] != 0x20 {
            silent(pos + 2, st)
        } else if pos + 2 < s.len() {
            silent(pos + 3, st)
        } else {
            Err(Error::MalformedShortBytes)
        },
        ControlKind::Sequence => match spec_final_byte(s, pos + 1) {
            Some(i) => silent(i + 1, st),
            None => Err(Error::MalformedShortBytes),
        },
        ControlKind::Time => if pos + 1 >= s.len() {
            Err(Error::MalformedShortBytes)
        } else if s[pos + 1] == 0x20 || s[pos + 1] == 0x28 {
            if pos + 2 < s.len() {
                silent(pos + 3, st)
            } else {
                Err(Error::MalformedShortBytes)
            }
        } else if s[pos + 1] == 0x29 {
            match spec_final_byte(s, pos + 2) {
                Some(i) => silent(i + 1, st),
                None => Err(Error::MalformedShortBytes),
            }
        } else {
            Err(Error::MalformedShortBytes)
        },
        ControlKind::Unimplemented => Err(Error::UnimplementedControl(s[pos])),
    }
}

/// The character of a code of a kana set: the syllables in table order from
/// 0x21 on, up to `last`, and eight marks from 0x77 to 0x7E. For the marks
/// only the two iteration marks differ between hiragana and katakana.
pub open spec fn spec_kana(b: u8, base: u32, last: u8, mark0: u32) -> Option<char> {
    if 0x21 <= b <= last {
        Some((base + (b - 0x21)) as char)
    } else if b == 0x77 {
        Some(mark0 as char)
    } else if b == 0x78 {
        Some((mark0 + 1) as char)
    } else if b == 0x79 {
        Some('\u{30fc}')
    } else if b == 0x7a {
        Some('\u{3002}')
    } else if b == 0x7b {
        Some('\u{300c}')
    } else if b == 0x7c {
        Some('\u{300d}')
    } else if b == 0x7d {
        Some('\u{3001}')
    } else if b == 0x7e {
        Some('\u{30fb}')
    } else {
        None
    }
}

/// The character of a hiragana code.
pub open spec fn spec_hiragana(b: u8) -> Option<char> {
    spec_kana(b, 0x3041, 0x73, 0x309d)
}

/// The character of a katakana code.
pub open spec fn spec_katakana(b: u8) -> Option<char> {
    spec_kana(b, 0x30a1, 0x76, 0x30fd)
}

/// The seven-bit code at `pos`.
pub open spec fn spec_code1(s: Seq<u8>, pos: int) -> Option<u8> {
    if 0 <= pos < s.len() {
        Some(low7(s[pos]))
    } else {
        None
    }
}

/// The code that the two seven-bit bytes at `pos` form.
pub open spec fn spec_code2(s: Seq<u8>, pos: int) -> Option<u16> {
    if 0 <= pos && pos + 1 < s.len() {
        Some((low7(s[pos]) * 0x100 + low7(s[pos + 1])) as u16)
    } else {
        None
    }
}

/// One code of a one-byte set that stands for the character `c(code)`.
pub open spec fn one_byte(
    cs: Charset,
    s: Seq<u8>,
    pos: int,
    m: StateModification,
    c: spec_fn(u8) -> Option<char>,
) -> Result<Glyph, Error> {
    match spec_code1(s, pos) {
        None => Err(Error::MalformedShortBytes),
        Some(b) => match c(b) {
            Some(ch) => Ok(Glyph { next: pos + 1, text: seq![ch], change: m }),
            None => Err(Error::UnknownCodepoint(b as u32, cs)),
        },
    }
}

/// One code of a JIS X 0213 plane.
pub open spec fn kanji_code(
    cs: Charset,
    t: CodeTablesView,
    code: u32,
    next: int,
    m: StateModification,
) -> Result<Glyph, Error> {
    if t.kanji.contains_key(code) {
        Ok(Glyph { next, text: t.kanji[code], change: m })
    } else {
        Err(Error::UnknownCodepoint(code, cs))
    }
}

/// One code of the ARIB symbols.
pub open spec fn symbol_code(
    cs: Charset,
    t: CodeTablesView,
    code: u16,
    next: int,
    m: StateModification,
) -> Result<Glyph, Error> {
    if t.symbols.contains_key(code) {
        Ok(Glyph { next, text: seq![t.symbols[code]], change: m })
    } else {
        Err(Error::UnknownCodepoint(code as u32, cs))
    }
}

/// One code of a DRCS set.
pub open spec fn drcs_code(
    cs: Charset,
    drcs: Map<u16, Seq<char>>,
    code: u16,
    next: int,
    m: StateModification,
) -> Result<Glyph, Error> {
    if drcs.contains_key(code) {
        Ok(Glyph { next, text: drcs[code], change: m })
    } else {
        Err(Error::UnknownCodepoint(code as u32, cs))
    }
}

/// What the code at `pos` gives when the set `cs` decodes it. The bytes of a
/// code count with their top bit cleared.
pub open spec fn spec_graphic(
    cs: Charset,
    t: CodeTablesView,
    drcs: Map<u16, Seq<char>>,
    s: Seq<u8>,
    pos: int,
    m: StateModification,
) -> Result<Glyph, Error> {
    match cs {
        Charset::Kanji => match spec_code2(s, pos) {
            None => Err(Error::MalformedShortBytes),
            Some(code) => if code < 0x7500 {
                kanji_code(cs, t, (0x10000 + code) as u32, pos + 2, m)
            } else {
                symbol_code(cs, t, code, pos + 2, m)
            },
        },
        Charset::JISGokanKanji1 => match spec_code2(s, pos) {
            None => Err(Error::MalformedShortBytes),
            Some(code) => kanji_code(cs, t, (0x10000 + code) as u32, pos + 2, m),
        },
        Charset::JISGokanKanji2 => match spec_code2(s, pos) {
            None => Err(Error::MalformedShortBytes),
            Some(code) => kanji_code(cs, t, (0x20000 + code) as u32, pos + 2, m),
        },
        Charset::Symbol => match spec_code2(s, pos) {
            None => Err(Error::MalformedShortBytes),
            Some(code) => symbol_code(cs, t, code, pos + 2, m),
        },
        Charset::Alnum | Charset::ProportionalAlnum => one_byte(
            cs,
            s,
            pos,
            m,
            |b: u8| Some(b as char),
        ),
        Charset::Hiragana | Charset::ProportionalHiragana => one_byte(
            cs,
            s,
            pos,
            m,
            |b: u8| spec_hiragana(b),
        ),
        Charset::Katakana | Charset::ProportionalKatakana => one_byte(
            cs,
            s,
            pos,
            m,
            |b: u8| spec_katakana(b),
        ),
        Charset::JISX0201 => one_byte(
            cs,
            s,
            pos,
            m,
            |b: u8|
                if b >= 0x21 {
                    Some((0xff61 + (b - 0x21)) as char)
                } else {
                    None
                },
        ),
        Charset::MosaicA | Charset::MosaicB | Charset::MosaicC | Charset::MosaicD => Err(
            Error::UnimplementedCharset(Some(cs)),
        ),
        Charset::DRCS(n) => if n == 0 {
            match spec_code2(s, pos) {
                None => Err(Error::MalformedShortBytes),
                Some(code) => drcs_code(cs, drcs, code, pos + 2, m),
            }
        } else if n <= 15 {
            match spec_code1(s, pos) {
                None => Err(Error::MalformedShortBytes),
                Some(b) => drcs_code(cs, drcs, ((0x40 + n) * 0x100 + b) as u16, pos + 1, m),
            }
        } else {
            Err(Error::UnimplementedCharset(Some(cs)))
        },
        Charset::Macro => match spec_code1(s, pos) {
            None => Err(Error::MalformedShortBytes),
            Some(b) => if b == 0x60 {
                Ok(
                    Glyph {
                        next: pos + 1,
                        text: Seq::empty(),
                        change: m.spec_macro(Charset::Alnum),
                    },
                )
            } else if b == 0x61 {
                Ok(
                    Glyph {
                        next: pos + 1,
                        text: Seq::empty(),
                        change: m.spec_macro(Charset::Katakana),
                    },
                )
            } else {
                Err(Error::UnknownCodepoint(b as u32, cs))
            },
        },
    }
}

/// What the control or the code at `pos` does.
pub open spec fn spec_step(
    st: GraphicSets,
    t: CodeTablesView,
    drcs: Map<u16, Seq<char>>,
    s: Seq<u8>,
    pos: int,
) -> Result<Step, Error>
    recommends
        0 <= pos < s.len(),
{
    if spec_is_control(s[pos]) {
        spec_control(st, s, pos)
    } else {
        match spec_graphic(st.spec_select(s[pos]), t, drcs, s, pos, StateModification::spec_new()) {
            Ok(g) => Ok(
                Step {
                    next: g.next,
                    text: g.text,
                    state: st.spec_selected(s[pos]).spec_apply(g.change),
                },
            ),
            Err(e) => Err(e),
        }
    }
}

/// The text that the bytes from `pos` on stand for, decoded with the
/// registers `st`, or the first error met.
pub open spec fn spec_decode(
    st: GraphicSets,
    t: CodeTablesView,
    drcs: Map<u16, Seq<char>>,
    s: Seq<u8>,
    pos: int,
) -> Result<Seq<char>, Error>
    decreases s.len() - pos,
{
    if pos < 0 || pos >= s.len() {
        Ok(Seq::empty())
    } else {
        match spec_step(st, t, drcs, s, pos) {
            Err(e) => Err(e),
            Ok(step) => {
                proof {
                    lemma_step_advances(st, t, drcs, s, pos);
                }
                match spec_decode(step.state, t, drcs, s, step.next) {
                    Ok(rest) => Ok(step.text + rest),
                    Err(e) => Err(e),
                }
            },
        }
    }
}

/// The text from a position on is that of the control or code there and of
/// what follows it, and fails as the first of the two fails.
pub proof fn lemma_decode_unfolds(
    st: GraphicSets,
    t: CodeTablesView,
    drcs: Map<u16, Seq<char>>,
    s: Seq<u8>,
    pos: int,
)
    requires
        0 <= pos < s.len(),
    ensures
        spec_decode(st, t, drcs, s, pos) == match spec_step(st, t, drcs, s, pos) {
            Err(e) => Err::<Seq<char>, Error>(e),
            Ok(step) => match spec_decode(step.state, t, drcs, s, step.next) {
                Ok(rest) => Ok::<Seq<char>, Error>(step.text + rest),
                Err(e) => Err::<Seq<char>, Error>(e),
            },
        },
{
}

/// Within one text the registers carry over: the text from a position on is
/// the text of the control or code at that position, followed by the text
/// of the rest as the registers that the control or code leaves decode it.
pub proof fn lemma_decode_carries_registers(
    st: GraphicSets,
    t: CodeTablesView,
    drcs: Map<u16, Seq<char>>,
    s: Seq<u8>,
    pos: int,
)
    requires
        0 <= pos < s.len(),
        spec_step(st, t, drcs, s, pos) is Ok,
    ensures
        ({
            let step = spec_step(st, t, drcs, s, pos)->Ok_0;
            spec_decode(st, t, drcs, s, pos) == match spec_decode(step.state, t, drcs, s, step.next) {
                Ok(rest) => Ok::<Seq<char>, Error>(step.text + rest),
                Err(e) => Err::<Seq<char>, Error>(e),
            }
        }),
{
}

/// A final byte, where there is one, lies at or after the start of the search
/// and inside the input.
pub proof fn lemma_final_byte(s: Seq<u8>, i: int)
    ensures
        spec_final_byte(s, i) matches Some(j) ==> i <= j < s.len() && s[j] >= 0x40,
    decreases s.len() - i,
{
    if 0 <= i < s.len() && s[i] < 0x40 {
        lemma_final_byte(s, i + 1);
    }
}

/// Every step takes at least one byte and none beyond the end of the input.
pub proof fn lemma_step_advances(
    st: GraphicSets,
    t: CodeTablesView,
    drcs: Map<u16, Seq<char>>,
    s: Seq<u8>,
    pos: int,
)
    requires
        0 <= pos < s.len(),
    ensures
        spec_step(st, t, drcs, s, pos) matches Ok(step) ==> pos < step.next <= s.len(),
{
    lemma_final_byte(s, pos + 1);
    lemma_final_byte(s, pos + 2);
}


/// The replacements of a DRCS map, each as its characters.
pub open spec fn drcs_view(m: Map<u16, String>) -> Map<u16, Seq<char>> {
    m.map_values(|s: String| s@)
}

impl View for CodeTables {
    type V = CodeTablesView;

    closed spec fn view(&self) -> CodeTablesView {
        CodeTablesView {
            kanji: self.kanji@.map_values(|v: Vec<char>| v@),
            symbols: self.symbols@,
        }
    }
}

impl CodeTables {
    /// Tables without any code.
    pub fn new() -> (t: CodeTables)
        ensures
            t@.kanji == Map::<u32, Seq<char>>::empty(),
            t@.symbols == Map::<u16, char>::empty(),
    {
        let t = CodeTables { kanji: HashMap::new(), symbols: HashMap::new() };
        proof {
            assert(t@.kanji =~= Map::<u32, Seq<char>>::empty());
        }
        t
    }

    /// Gives the JIS X 0213 code point `code` the characters `chars`.
    pub fn set_kanji(&mut self, code: u32, chars: Vec<char>)
        ensures
            final(self)@.kanji == old(self)@.kanji.insert(code, chars@),
            final(self)@.symbols == old(self)@.symbols,
    {
        self.kanji.insert(code, chars);
        proof {
            assert(self@.kanji =~= old(self)@.kanji.insert(code, chars@));
        }
    }

    /// Gives the ARIB symbol code `code` the character `ch`.
    pub fn set_symbol(&mut self, code: u16, ch: char)
        ensures
            final(self)@.symbols == old(self)@.symbols.insert(code, ch),
            final(self)@.kanji == old(self)@.kanji,
    {
        self.symbols.insert(code, ch);
    }

    /// The characters of a JIS X 0213 code point.
    pub fn kanji(&self, code: u32) -> (r: Option<&Vec<char>>)
        ensures
            match r {
                Some(chars) => self@.kanji.contains_key(code) && self@.kanji[code] == chars@,
                None => !self@.kanji.contains_key(code),
            },
    {
        self.kanji.get(&code)
    }

    /// The character of an ARIB symbol code.
    pub fn symbol(&self, code: u16) -> (r: Option<char>)
        ensures
            match r {
                Some(ch) => self@.symbols.contains_key(code) && self@.symbols[code] == ch,
                None => !self@.symbols.contains_key(code),
            },
    {
        match self.symbols.get(&code) {
            Some(ch) => Some(*ch),
            None => None,
        }
    }
}

/// Tells whether `b` is a control and not the first byte of a code.
pub fn is_control(b: u8) -> (r: bool)
    ensures
        r == spec_is_control(b),
{
    let lo = bits(b, 0, 7);
    lo <= 0x20 || lo == 0x7f
}

/// The graphic set that the final byte `f` of a designation names.
pub fn g_set_from_termination(f: u8) -> (r: Option<Charset>)
    ensures
        r == spec_g_set(f),
{
    match f {
        0x42 => Some(Charset::Kanji),
        0x4a => Some(Charset::Alnum),
        0x30 => Some(Charset::Hiragana),
        0x31 => Some(Charset::Katakana),
        0x32 => Some(Charset::MosaicA),
        0x33 => Some(Charset::MosaicB),
        0x34 => Some(Charset::MosaicC),
        0x35 => Some(Charset::MosaicD),
        0x36 => Some(Charset::ProportionalAlnum),
        0x37 => Some(Charset::ProportionalHiragana),
        0x38 => Some(Charset::ProportionalKatakana),
        0x49 => Some(Charset::JISX0201),
        0x39 => Some(Charset::JISGokanKanji1),
        0x3a => Some(Charset::JISGokanKanji2),
        0x3b => Some(Charset::Symbol),
        _ => None,
    }
}

/// The set that the final byte `f` of a DRCS designation names.
pub fn drcs_from_termination(f: u8) -> (r: Option<Charset>)
    ensures
        r == spec_drcs_set(f),
{
    if 0x40 <= f && f <= 0x4f {
        Some(Charset::DRCS(f - 0x40))
    } else if f == 0x70 {
        Some(Charset::Macro)
    } else {
        None
    }
}

/// The byte at `pos`, or the error of an input that ends too early.
fn next(s: &[u8], pos: usize) -> (r: Result<u8, Error>)
    ensures
        pos < s@.len() ==> r == Ok::<u8, Error>(s@[pos as int]) && pos < usize::MAX,
        pos >= s@.len() ==> r == Err::<u8, Error>(Error::MalformedShortBytes),
{
    if pos < s.len() {
        Ok(s[pos])
    } else {
        Err(Error::MalformedShortBytes)
    }
}

/// The seven-bit code at `pos`.
fn code1(s: &[u8], pos: usize) -> (r: Result<u8, Error>)
    ensures
        match spec_code1(s@, pos as int) {
            Some(b) => r == Ok::<u8, Error>(b) && pos < usize::MAX,
            None => r == Err::<u8, Error>(Error::MalformedShortBytes),
        },
{
    let b = next(s, pos)?;
    Ok(bits(b, 0, 7))
}

/// The code that the two seven-bit bytes at `pos` form.
fn code2(s: &[u8], pos: usize) -> (r: Result<u16, Error>)
    ensures
        match spec_code2(s@, pos as int) {
            Some(code) => r == Ok::<u16, Error>(code) && pos + 1 < usize::MAX,
            None => r == Err::<u16, Error>(Error::MalformedShortBytes),
        },
{
    let hi = code1(s, pos)?;
    let lo = code1(s, pos + 1)?;
    Ok((hi as u16) * 0x100 + lo as u16)
}

/// The position after the first byte at or after `pos` that is 0x40 or more.
fn skip_sequence(s: &[u8], pos: usize) -> (r: Result<usize, Error>)
    ensures
        match spec_final_byte(s@, pos as int) {
            Some(i) => r == Ok::<usize, Error>((i + 1) as usize) && i < s@.len(),
            None => r == Err::<usize, Error>(Error::MalformedShortBytes),
        },
{
    let mut i = pos;
    while i < s.len()
        invariant
            pos <= i,
            spec_final_byte(s@, pos as int) == spec_final_byte(s@, i as int),
        decreases s@.len() - i,
    {
        if s[i] >= 0x40 {
            return Ok(i + 1);
        }
        i += 1;
    }
    Err(Error::MalformedShortBytes)
}

/// The character with the scalar value `v` goes to the end of `out`.
fn push_scalar(out: &mut String, v: u32)
    requires
        v < 0xd800 || 0xe000 <= v <= 0x10ffff,
    ensures
        final(out)@ == old(out)@.push(v as char),
{
    match char::from_u32(v) {
        Some(ch) => out.push(ch),
        None => {},
    }
}

/// The scalar value of the character of a kana code, as [`spec_kana`] has it.
fn kana(b: u8, base: u32, last: u8, mark0: u32) -> (r: Option<u32>)
    requires
        0x21 <= last < 0x77,
        base + last < 0xd800,
        mark0 + 1 < 0xd800,
    ensures
        match spec_kana(b, base, last, mark0) {
            Some(ch) => r == Some(ch as u32) && (ch as u32) < 0xd800,
            None => r is None,
        },
{
    if 0x21 <= b && b <= last {
        Some(base + (b - 0x21) as u32)
    } else {
        match b {
            0x77 => Some(mark0),
            0x78 => Some(mark0 + 1),
            0x79 => Some(0x30fc),
            0x7a => Some(0x3002),
            0x7b => Some(0x300c),
            0x7c => Some(0x300d),
            0x7d => Some(0x3001),
            0x7e => Some(0x30fb),
            _ => None,
        }
    }
}

impl Charset {
    /// Decodes the code at `pos` with this set: its text goes to the end of
    /// `out`, the changes to the registers that it asks for go into `state`,
    /// and the position of the next code is returned.
    pub fn decode(
        &self,
        s: &[u8],
        pos: usize,
        out: &mut String,
        drcs_map: &HashMap<u16, String>,
        tables: &CodeTables,
        state: &mut StateModification,
    ) -> (r: Result<usize, Error>)
        ensures
            match spec_graphic(*self, tables@, drcs_view(drcs_map@), s@, pos as int, *old(state)) {
                Ok(g) => {
                    &&& r == Ok::<usize, Error>(g.next as usize)
                    &&& g.next <= s@.len()
                    &&& final(out)@ == old(out)@ + g.text
                    &&& *final(state) == g.change
                },
                Err(e) => {
                    &&& r == Err::<usize, Error>(e)
                    &&& final(out)@ == old(out)@
                    &&& *final(state) == *old(state)
                },
            },
    {
        match self {
            Charset::Kanji => {
                let code = code2(s, pos)?;
                if code < 0x7500 {
                    let code_point = 0x10000 + code as u32;
                    match tables.kanji(code_point) {
                        Some(chars) => push_chars(out, chars.as_slice()),
                        None => return Err(Error::UnknownCodepoint(code_point, *self)),
                    }
                } else {
                    match tables.symbol(code) {
                        Some(ch) => out.push(ch),
                        None => return Err(Error::UnknownCodepoint(code as u32, *self)),
                    }
                }
                Ok(pos + 2)
            },
            Charset::JISGokanKanji1 => {
                let code_point = 0x10000 + code2(s, pos)? as u32;
                match tables.kanji(code_point) {
                    Some(chars) => push_chars(out, chars.as_slice()),
                    None => return Err(Error::UnknownCodepoint(code_point, *self)),
                }
                Ok(pos + 2)
            },
            Charset::JISGokanKanji2 => {
                let code_point = 0x20000 + code2(s, pos)? as u32;
                match tables.kanji(code_point) {
                    Some(chars) => push_chars(out, chars.as_slice()),
                    None => return Err(Error::UnknownCodepoint(code_point, *self)),
                }
                Ok(pos + 2)
            },
            Charset::Symbol => {
                let code = code2(s, pos)?;
                match tables.symbol(code) {
                    Some(ch) => out.push(ch),
                    None => return Err(Error::UnknownCodepoint(code as u32, *self)),
                }
                Ok(pos + 2)
            },
            Charset::Alnum | Charset::ProportionalAlnum => {
                let b = code1(s, pos)?;
                out.push(b as char);
                Ok(pos + 1)
            },
            Charset::Hiragana | Charset::ProportionalHiragana => {
                let b = code1(s, pos)?;
                match kana(b, 0x3041, 0x73, 0x309d) {
                    Some(v) => push_scalar(out, v),
                    None => return Err(Error::UnknownCodepoint(b as u32, *self)),
                }
                Ok(pos + 1)
            },
            Charset::Katakana | Charset::ProportionalKatakana => {
                let b = code1(s, pos)?;
                match kana(b, 0x30a1, 0x76, 0x30fd) {
                    Some(v) => push_scalar(out, v),
                    None => return Err(Error::UnknownCodepoint(b as u32, *self)),
                }
                Ok(pos + 1)
            },
            Charset::MosaicA | Charset::MosaicB | Charset::MosaicC | Charset::MosaicD => Err(
                Error::UnimplementedCharset(Some(*self)),
            ),
            Charset::JISX0201 => {
                let b = code1(s, pos)?;
                if b < 0x21 {
                    return Err(Error::UnknownCodepoint(b as u32, *self));
                }
                push_scalar(out, 0xff61 + (b - 0x21) as u32);
                Ok(pos + 1)
            },
            Charset::DRCS(n) => {
                let n = *n;
                let (code, next) = if n == 0 {
                    (code2(s, pos)?, pos + 2)
                } else if n <= 15 {
                    ((0x40 + n as u16) * 0x100 + code1(s, pos)? as u16, pos + 1)
                } else {
                    return Err(Error::UnimplementedCharset(Some(*self)));
                };
                match drcs_map.get(&code) {
                    Some(replacement) => out.append(replacement.as_str()),
                    None => return Err(Error::UnknownCodepoint(code as u32, *self)),
                }
                Ok(next)
            },
            Charset::Macro => {
                let b = code1(s, pos)?;
                let g1 = match b {
                    0x60 => Charset::Alnum,
                    0x61 => Charset::Katakana,
                    _ => return Err(Error::UnknownCodepoint(b as u32, *self)),
                };
                state.designate(DesignatePos::G0, Charset::Kanji);
                state.designate(DesignatePos::G1, g1);
                state.designate(DesignatePos::G2, Charset::Hiragana);
                state.designate(DesignatePos::G3, Charset::Macro);
                state.lock(InvokePos::GL, DesignatePos::G0);
                state.lock(InvokePos::GR, DesignatePos::G2);
                Ok(pos + 1)
            },
        }
    }
}


impl AribDecoder {
    /// The registers of the decoder.
    pub closed spec fn registers(&self) -> GraphicSets {
        self.state
    }

    /// The DRCS replacements in force: for each code its text.
    pub closed spec fn drcs(&self) -> Map<u16, Seq<char>> {
        drcs_view(self.drcs_map@)
    }

    /// A decoder for a text of the programme guide.
    pub fn with_event_initialization() -> (d: AribDecoder)
        ensures
            d.registers() == GraphicSets::event_initial(),
            d.drcs() == Map::<u16, Seq<char>>::empty(),
    {
        let d = AribDecoder {
            state: GraphicSets {
                g0: Charset::JISGokanKanji1,
                g1: Charset::Alnum,
                g2: Charset::Hiragana,
                g3: Charset::Katakana,
                gl: DesignatePos::G0,
                gr: DesignatePos::G2,
                single: None,
            },
            drcs_map: HashMap::new(),
        };
        proof {
            assert(d.drcs() =~= Map::<u16, Seq<char>>::empty());
        }
        d
    }

    /// A decoder for a caption text.
    pub fn with_caption_initialization() -> (d: AribDecoder)
        ensures
            d.registers() == GraphicSets::caption_initial(),
            d.drcs() == Map::<u16, Seq<char>>::empty(),
    {
        let d = AribDecoder {
            state: GraphicSets {
                g0: Charset::Kanji,
                g1: Charset::Alnum,
                g2: Charset::Hiragana,
                g3: Charset::Macro,
                gl: DesignatePos::G0,
                gr: DesignatePos::G2,
                single: None,
            },
            drcs_map: HashMap::new(),
        };
        proof {
            assert(d.drcs() =~= Map::<u16, Seq<char>>::empty());
        }
        d
    }

    /// Puts the DRCS replacements `drcs_map` in force.
    pub fn set_drcs(&mut self, drcs_map: HashMap<u16, String>)
        ensures
            final(self).drcs() == drcs_view(drcs_map@),
            final(self).registers() == old(self).registers(),
    {
        self.drcs_map = drcs_map;
    }

    /// Decodes `bytes` into text, one control or code after the other, and
    /// stops at the first that fails.
    pub fn decode(self, bytes: &[u8], tables: &CodeTables) -> (r: Result<String, Error>)
        ensures
            match spec_decode(self.registers(), tables@, self.drcs(), bytes@, 0) {
                Ok(text) => r matches Ok(string) && string@ == text,
                Err(e) => r matches Err(x) && x == e,
            },
    {
        let mut decoder = self;
        let mut string = String::new();
        let mut pos: usize = 0;
        while pos < bytes.len()
            invariant
                pos <= bytes@.len(),
                decoder.drcs() == self.drcs(),
                match spec_decode(decoder.registers(), tables@, self.drcs(), bytes@, pos as int) {
                    Ok(rest) => spec_decode(self.registers(), tables@, self.drcs(), bytes@, 0)
                        == Ok::<Seq<char>, Error>(string@ + rest),
                    Err(e) => spec_decode(self.registers(), tables@, self.drcs(), bytes@, 0)
                        == Err::<Seq<char>, Error>(e),
                },
            decreases bytes@.len() - pos,
        {
            let ghost before = string@;
            let ghost step = spec_step(
                decoder.registers(),
                tables@,
                self.drcs(),
                bytes@,
                pos as int,
            );
            proof {
                lemma_decode_unfolds(decoder.registers(), tables@, self.drcs(), bytes@, pos as int);
            }
            pos = decoder.step(bytes, pos, &mut string, tables)?;
            proof {
                let rest = spec_decode(decoder.registers(), tables@, self.drcs(), bytes@, pos as int);
                if rest is Ok {
                    assert(before + (step->Ok_0.text + rest->Ok_0) =~= string@ + rest->Ok_0);
                }
            }
        }
        proof {
            assert(string@ + Seq::<char>::empty() =~= string@);
        }
        Ok(string)
    }

    /// Carries out the control or decodes the code at `pos`, as
    /// [`spec_step`] says: its text goes to the end of `out`, the registers
    /// change, and the position of what follows is returned.
    fn step(&mut self, bytes: &[u8], pos: usize, out: &mut String, tables: &CodeTables) -> (r:
        Result<usize, Error>)
        requires
            pos < bytes@.len(),
        ensures
            final(self).drcs() == old(self).drcs(),
            match spec_step(old(self).registers(), tables@, old(self).drcs(), bytes@, pos as int) {
                Ok(step) => {
                    &&& r == Ok::<usize, Error>(step.next as usize)
                    &&& pos < step.next <= bytes@.len()
                    &&& final(self).registers() == step.state
                    &&& final(out)@ == old(out)@ + step.text
                },
                Err(e) => r == Err::<usize, Error>(e),
            },
    {
        proof {
            lemma_step_advances(old(self).registers(), tables@, old(self).drcs(), bytes@, pos as int);
        }
        let b = bytes[pos];
        if is_control(b) {
            self.control(bytes, pos, out)
        } else {
            let charset = if b < 0x80 {
                match self.state.single {
                    Some(g) => {
                        self.state.single = None;
                        self.state.get(g)
                    },
                    None => self.state.get(self.state.gl),
                }
            } else {
                self.state.get(self.state.gr)
            };
            let mut modification = StateModification::new();
            let next = charset.decode(bytes, pos, out, &self.drcs_map, tables, &mut modification)?;
            self.apply(modification);
            Ok(next)
        }
    }

    /// Makes the changes that `modification` asks for.
    pub fn apply(&mut self, modification: StateModification)
        ensures
            final(self).registers() == old(self).registers().spec_apply(modification),
            final(self).drcs() == old(self).drcs(),
    {
        if modification.single.is_some() {
            self.state.single = modification.single;
        }
        match modification.gl {
            Some(gl) => self.state.gl = gl,
            None => {},
        }
        match modification.gr {
            Some(gr) => self.state.gr = gr,
            None => {},
        }
        match modification.g0 {
            Some(cs) => self.state.g0 = cs,
            None => {},
        }
        match modification.g1 {
            Some(cs) => self.state.g1 = cs,
            None => {},
        }
        match modification.g2 {
            Some(cs) => self.state.g2 = cs,
            None => {},
        }
        match modification.g3 {
            Some(cs) => self.state.g3 = cs,
            None => {},
        }
    }

    /// Designates into the register `dst` the set whose final byte stands at
    /// `pos`, and returns the position after the sequence.
    fn designation(&mut self, s: &[u8], pos: usize, dst: DesignatePos) -> (r: Result<usize, Error>)
        ensures
            final(self).drcs() == old(self).drcs(),
            match spec_designation(old(self).registers(), s@, pos as int, dst) {
                Ok(step) => {
                    &&& r == Ok::<usize, Error>(step.next as usize)
                    &&& final(self).registers() == step.state
                },
                Err(e) => r == Err::<usize, Error>(e) && final(self).registers() == old(
                    self,
                ).registers(),
            },
    {
        let f = next(s, pos)?;
        if f == 0x20 {
            let f = next(s, pos + 1)?;
            match drcs_from_termination(f) {
                Some(cs) => self.state.designate(dst, cs),
                None => return Err(Error::UnimplementedCharset(None)),
            }
            Ok(pos + 2)
        } else {
            match g_set_from_termination(f) {
                Some(cs) => self.state.designate(dst, cs),
                None => return Err(Error::UnimplementedCharset(None)),
            }
            Ok(pos + 1)
        }
    }

    /// Carries out the control at `pos`: its text goes to the end of `out`,
    /// the registers change as it says, and the position of what follows the
    /// control and its parameters is returned.
    pub fn control(&mut self, s: &[u8], pos: usize, out: &mut String) -> (r: Result<usize, Error>)
        ensures
            final(self).drcs() == old(self).drcs(),
            match spec_control(old(self).registers(), s@, pos as int) {
                Ok(step) => {
                    &&& r == Ok::<usize, Error>(step.next as usize)
                    &&& final(self).registers() == step.state
                    &&& final(out)@ == old(out)@ + step.text
                },
                Err(e) => {
                    &&& r == Err::<usize, Error>(e)
                    &&& final(self).registers() == old(self).registers()
                    &&& final(out)@ == old(out)@
                },
            },
    {
        let s0 = next(s, pos)?;
        proof {
            lemma_final_byte(s@, pos + 1);
            lemma_final_byte(s@, pos + 2);
            assert(old(out)@ + Seq::<char>::empty() =~= old(out)@);
        }
        match s0 {
            // invocation and designation
            LS0 => self.state.gl = DesignatePos::G0,
            LS1 => self.state.gl = DesignatePos::G1,
            ESC => {
                let s1 = next(s, pos + 1)?;
                match s1 {
                    LS2 => self.state.gl = DesignatePos::G2,
                    LS3 => self.state.gl = DesignatePos::G3,
                    LS1R => self.state.gr = DesignatePos::G1,
                    LS2R => self.state.gr = DesignatePos::G2,
                    LS3R => self.state.gr = DesignatePos::G3,
                    0x28 => return self.designation(s, pos + 2, DesignatePos::G0),
                    0x29 => return self.designation(s, pos + 2, DesignatePos::G1),
                    0x2a => return self.designation(s, pos + 2, DesignatePos::G2),
                    0x2b => return self.designation(s, pos + 2, DesignatePos::G3),
                    0x24 => {
                        let s2 = next(s, pos + 2)?;
                        match s2 {
                            0x28 => {
                                // a two-byte set goes into G0 without this byte; with it only DRCS does
                                let s3 = next(s, pos + 3)?;
                                if s3 != 0x20 {
                                    return Err(Error::MalformedShortBytes);
                                }
                                return self.designation(s, pos + 3, DesignatePos::G0);
                            },
                            0x29 => return self.designation(s, pos + 3, DesignatePos::G1),
                            0x2a => return self.designation(s, pos + 3, DesignatePos::G2),
                            0x2b => return self.designation(s, pos + 3, DesignatePos::G3),
                            _ => {
                                match g_set_from_termination(s2) {
                                    Some(cs) => self.state.designate(DesignatePos::G0, cs),
                                    None => return Err(Error::UnimplementedCharset(None)),
                                }
                                return Ok(pos + 3);
                            },
                        }
                    },
                    _ => return Err(Error::MalformedShortBytes),
                }
                return Ok(pos + 2);
            },
            SS2 => self.state.single = Some(DesignatePos::G2),
            SS3 => self.state.single = Some(DesignatePos::G3),
            // C0
            NUL | APU | CS | CAN | RS | US | DEL => {},
            BEL => out.push('\x07'),
            APB => out.push('\x08'),
            APF => out.push('\t'),
            APD => out.push('\n'),
            APR => out.push('\r'),
            SP => out.push(' '),
            PAPF => {
                let x = next(s, pos + 1)?;
                let mut i: u8 = 0;
                while i < x
                    invariant
                        i <= x,
                        out@ == old(out)@ + Seq::new(i as nat, |k: int| '\t'),
                    decreases x - i,
                {
                    out.push('\t');
                    i += 1;
                    proof {
                        assert(out@ =~= old(out)@ + Seq::new(i as nat, |k: int| '\t'));
                    }
                }
                return Ok(pos + 2);
            },
            APS => {
                let _x = next(s, pos + 1)?;
                let _y = next(s, pos + 2)?;
                out.push('\n');
                return Ok(pos + 3);
            },
            // C1: colours, sizes and the end of lining change no text
            0x80..=0x87 | SSZ | MSZ | NSZ | SPL => {},
            SZX | FLC | POL | WMM | HLC => {
                let _param = next(s, pos + 1)?;
                return Ok(pos + 2);
            },
            COL | CDC => {
                let param = next(s, pos + 1)?;
                if param == 0x20 {
                    let _second = next(s, pos + 2)?;
                    return Ok(pos + 3);
                }
                return Ok(pos + 2);
            },
            TIME => {
                let c = next(s, pos + 1)?;
                match c {
                    0x20 | 0x28 => {
                        let _param = next(s, pos + 2)?;
                        return Ok(pos + 3);
                    },
                    0x29 => return skip_sequence(s, pos + 2),
                    _ => return Err(Error::MalformedShortBytes),
                }
            },
            CSI => return skip_sequence(s, pos + 1),
            _ => return Err(Error::UnimplementedControl(s0)),
        }
        Ok(pos + 1)
    }
}

} // verus!
