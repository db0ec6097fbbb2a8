//! The move vocabulary: twenty face rotations, their device codes and their
//! textual tokens.

use crate::text::chars_of;
use rand::seq::SliceRandom;
use vstd::prelude::*;

verus! {

/// One of the five faces that the robot can turn.
#[derive(Debug, PartialEq, Eq, Hash, Clone, Copy, Structural)]
pub enum Face {
    R,
    F,
    D,
    L,
    B,
}

/// How far, and which way, a face is turned.
#[derive(Debug, PartialEq, Eq, Hash, Clone, Copy, Structural)]
pub enum Turn {
    /// A quarter turn clockwise.
    Quarter,
    /// A half turn.
    Half,
    /// A half turn, written as counter-clockwise.
    HalfReverse,
    /// A quarter turn counter-clockwise.
    Reverse,
}

/// A rotation of one face, or `Invalid` for a token that names none.
#[derive(Debug, PartialEq, Eq, Hash, Clone, Copy, Structural)]
pub enum FaceRotation {
    R,
    R2,
    R2Prime,
    RPrime,
    F,
    F2,
    F2Prime,
    FPrime,
    D,
    D2,
    D2Prime,
    DPrime,
    L,
    L2,
    L2Prime,
    LPrime,
    B,
    B2,
    B2Prime,
    BPrime,
    Invalid,
}

/// The code that stands for "no move"; it must never be sent to the robot.
pub const INVALID_CODE: u8 = 255;

impl Face {
    /// The position of the face in the device's numbering.
    pub open spec fn index(self) -> int {
        match self {
            Face::R => 0,
            Face::F => 1,
            Face::D => 2,
            Face::L => 3,
            Face::B => 4,
        }
    }

    /// The upper-case letter that names the face.
    pub open spec fn letter(self) -> char {
        match self {
            Face::R => 'R',
            Face::F => 'F',
            Face::D => 'D',
            Face::L => 'L',
            Face::B => 'B',
        }
    }

    /// The face that a letter names, in either case; `None` for any other
    /// character.
    pub open spec fn named_by(c: char) -> Option<Face> {
        if c == 'R' || c == 'r' {
            Some(Face::R)
        } else if c == 'F' || c == 'f' {
            Some(Face::F)
        } else if c == 'D' || c == 'd' {
            Some(Face::D)
        } else if c == 'L' || c == 'l' {
            Some(Face::L)
        } else if c == 'B' || c == 'b' {
            Some(Face::B)
        } else {
            None
        }
    }
}

impl Face {
    /// The first of the face's three device codes.
    pub fn base_code(self) -> (code: u8)
        ensures
            code == 3 * self.index(),
    {
        match self {
            Face::R => 0,
            Face::F => 3,
            Face::D => 6,
            Face::L => 9,
            Face::B => 12,
        }
    }

    /// The face's letter as a string.
    pub fn name(self) -> (name: &'static str)
        ensures
            name@ == seq![self.letter()],
    {
        proof {
            reveal_strlit("R");
            reveal_strlit("F");
            reveal_strlit("D");
            reveal_strlit("L");
            reveal_strlit("B");
        }
        let name = match self {
            Face::R => "R",
            Face::F => "F",
            Face::D => "D",
            Face::L => "L",
            Face::B => "B",
        };
        assert(name@ =~= seq![self.letter()]);
        name
    }

    /// The face that a letter names, in either case.
    pub fn from_letter(c: char) -> (face: Option<Face>)
        ensures
            face == Face::named_by(c),
    {
        if c == 'R' || c == 'r' {
            Some(Face::R)
        } else if c == 'F' || c == 'f' {
            Some(Face::F)
        } else if c == 'D' || c == 'd' {
            Some(Face::D)
        } else if c == 'L' || c == 'l' {
            Some(Face::L)
        } else if c == 'B' || c == 'b' {
            Some(Face::B)
        } else {
            None
        }
    }
}

impl Turn {
    /// The offset of the turn within its face's block of three codes. Both
    /// half turns share one offset: the device cannot tell them apart.
    pub open spec fn step(self) -> int {
        match self {
            Turn::Quarter => 0,
            Turn::Half => 1,
            Turn::HalfReverse => 1,
            Turn::Reverse => 2,
        }
    }

    /// What follows the face letter in a token.
    pub open spec fn suffix(self) -> Seq<char> {
        match self {
            Turn::Quarter => seq![],
            Turn::Half => seq!['2'],
            Turn::HalfReverse => seq!['2', '\''],
            Turn::Reverse => seq!['\''],
        }
    }

    /// The turn that a suffix writes; `None` for any other text.
    pub open spec fn written_as(suffix: Seq<char>) -> Option<Turn> {
        if suffix == Turn::Quarter.suffix() {
            Some(Turn::Quarter)
        } else if suffix == Turn::Half.suffix() {
            Some(Turn::Half)
        } else if suffix == Turn::HalfReverse.suffix() {
            Some(Turn::HalfReverse)
        } else if suffix == Turn::Reverse.suffix() {
            Some(Turn::Reverse)
        } else {
            None
        }
    }

    /// The suffixes are told apart by their length and their characters.
    pub proof fn lemma_written_as(suffix: Seq<char>)
        ensures
            Turn::written_as(suffix) == if suffix.len() == 0 {
                Some(Turn::Quarter)
            } else if suffix.len() == 1 && suffix[0] == '2' {
                Some(Turn::Half)
            } else if suffix.len() == 1 && suffix[0] == '\'' {
                Some(Turn::Reverse)
            } else if suffix.len() == 2 && suffix[0] == '2' && suffix[1] == '\'' {
                Some(Turn::HalfReverse)
            } else {
                None
            },
    {
        let half = Turn::Half.suffix();
        let half_reverse = Turn::HalfReverse.suffix();
        let reverse = Turn::Reverse.suffix();
        assert(half.len() == 1 && half[0] == '2');
        assert(half_reverse.len() == 2 && half_reverse[0] == '2' && half_reverse[1] == '\'');
        assert(reverse.len() == 1 && reverse[0] == '\'');
        if suffix.len() == 0 {
            assert(suffix =~= Turn::Quarter.suffix());
        } else if suffix.len() == 1 && suffix[0] == '2' {
            assert(suffix =~= half);
        } else if suffix.len() == 1 && suffix[0] == '\'' {
            assert(suffix =~= reverse);
        } else if suffix.len() == 2 && suffix[0] == '2' && suffix[1] == '\'' {
            assert(suffix =~= half_reverse);
        }
    }

    /// The offset of the turn within its face's block of three codes.
    pub fn step_code(self) -> (code: u8)
        ensures
            code == self.step(),
    {
        match self {
            Turn::Quarter => 0,
            Turn::Half => 1,
            Turn::HalfReverse => 1,
            Turn::Reverse => 2,
        }
    }

    /// The turn's suffix as a string.
    pub fn name(self) -> (name: &'static str)
        ensures
            name@ == self.suffix(),
    {
        proof {
            reveal_strlit("");
            reveal_strlit("2");
            reveal_strlit("2'");
            reveal_strlit("'");
        }
        let name = match self {
            Turn::Quarter => "",
            Turn::Half => "2",
            Turn::HalfReverse => "2'",
            Turn::Reverse => "'",
        };
        assert(name@ =~= self.suffix());
        name
    }
}

impl FaceRotation {
    /// The rotation of `face` by `turn`.
    pub open spec fn compose(face: Face, turn: Turn) -> FaceRotation {
        match (face, turn) {
            (Face::R, Turn::Quarter) => FaceRotation::R,
            (Face::R, Turn::Half) => FaceRotation::R2,
            (Face::R, Turn::HalfReverse) => FaceRotation::R2Prime,
            (Face::R, Turn::Reverse) => FaceRotation::RPrime,
            (Face::F, Turn::Quarter) => FaceRotation::F,
            (Face::F, Turn::Half) => FaceRotation::F2,
            (Face::F, Turn::HalfReverse) => FaceRotation::F2Prime,
            (Face::F, Turn::Reverse) => FaceRotation::FPrime,
            (Face::D, Turn::Quarter) => FaceRotation::D,
            (Face::D, Turn::Half) => FaceRotation::D2,
            (Face::D, Turn::HalfReverse) => FaceRotation::D2Prime,
            (Face::D, Turn::Reverse) => FaceRotation::DPrime,
            (Face::L, Turn::Quarter) => FaceRotation::L,
            (Face::L, Turn::Half) => FaceRotation::L2,
            (Face::L, Turn::HalfReverse) => FaceRotation::L2Prime,
            (Face::L, Turn::Reverse) => FaceRotation::LPrime,
            (Face::B, Turn::Quarter) => FaceRotation::B,
            (Face::B, Turn::Half) => FaceRotation::B2,
            (Face::B, Turn::HalfReverse) => FaceRotation::B2Prime,
            (Face::B, Turn::Reverse) => FaceRotation::BPrime,
        }
    }

    /// Whether the value names a rotation.
    pub open spec fn is_valid(self) -> bool {
        self != FaceRotation::Invalid
    }

    /// The face that the rotation turns; `None` for `Invalid`.
    pub open spec fn face(self) -> Option<Face> {
        match self {
            FaceRotation::R | FaceRotation::R2 | FaceRotation::R2Prime | FaceRotation::RPrime => {
                Some(Face::R)
            },
            FaceRotation::F | FaceRotation::F2 | FaceRotation::F2Prime | FaceRotation::FPrime => {
                Some(Face::F)
            },
            FaceRotation::D | FaceRotation::D2 | FaceRotation::D2Prime | FaceRotation::DPrime => {
                Some(Face::D)
            },
            FaceRotation::L | FaceRotation::L2 | FaceRotation::L2Prime | FaceRotation::LPrime => {
                Some(Face::L)
            },
            FaceRotation::B | FaceRotation::B2 | FaceRotation::B2Prime | FaceRotation::BPrime => {
                Some(Face::B)
            },
            FaceRotation::Invalid => None,
        }
    }

    /// The turn that the rotation makes; `None` for `Invalid`.
    pub open spec fn turn(self) -> Option<Turn> {
        match self {
            FaceRotation::R | FaceRotation::F | FaceRotation::D | FaceRotation::L
            | FaceRotation::B => Some(Turn::Quarter),
            FaceRotation::R2 | FaceRotation::F2 | FaceRotation::D2 | FaceRotation::L2
            | FaceRotation::B2 => Some(Turn::Half),
            FaceRotation::R2Prime | FaceRotation::F2Prime | FaceRotation::D2Prime
            | FaceRotation::L2Prime | FaceRotation::B2Prime => Some(Turn::HalfReverse),
            FaceRotation::RPrime | FaceRotation::FPrime | FaceRotation::DPrime
            | FaceRotation::LPrime | FaceRotation::BPrime => Some(Turn::Reverse),
            FaceRotation::Invalid => None,
        }
    }

    /// Whether the value is a half turn, in either direction.
    pub open spec fn is_half_turn(self) -> bool {
        self.turn() == Some(Turn::Half) || self.turn() == Some(Turn::HalfReverse)
    }

    /// The device code of the value: three codes per face, in the order
    /// quarter turn, half turn, reverse quarter turn; `INVALID_CODE` for
    /// `Invalid`.
    pub open spec fn code(self) -> u8 {
        match (self.face(), self.turn()) {
            (Some(face), Some(turn)) => (3 * face.index() + turn.step()) as u8,
            _ => INVALID_CODE,
        }
    }

    /// The face and the turn that make up the rotation; `None` for
    /// `Invalid`.
    pub fn parts(self) -> (p: Option<(Face, Turn)>)
        ensures
            p is Some <==> self.is_valid(),
            p matches Some((face, turn)) ==> self.face() == Some(face) && self.turn() == Some(
                turn,
            ) && FaceRotation::compose(face, turn) == self,
    {
        match self {
            FaceRotation::R => Some((Face::R, Turn::Quarter)),
            FaceRotation::R2 => Some((Face::R, Turn::Half)),
            FaceRotation::R2Prime => Some((Face::R, Turn::HalfReverse)),
            FaceRotation::RPrime => Some((Face::R, Turn::Reverse)),
            FaceRotation::F => Some((Face::F, Turn::Quarter)),
            FaceRotation::F2 => Some((Face::F, Turn::Half)),
            FaceRotation::F2Prime => Some((Face::F, Turn::HalfReverse)),
            FaceRotation::FPrime => Some((Face::F, Turn::Reverse)),
            FaceRotation::D => Some((Face::D, Turn::Quarter)),
            FaceRotation::D2 => Some((Face::D, Turn::Half)),
            FaceRotation::D2Prime => Some((Face::D, Turn::HalfReverse)),
            FaceRotation::DPrime => Some((Face::D, Turn::Reverse)),
            FaceRotation::L => Some((Face::L, Turn::Quarter)),
            FaceRotation::L2 => Some((Face::L, Turn::Half)),
            FaceRotation::L2Prime => Some((Face::L, Turn::HalfReverse)),
            FaceRotation::LPrime => Some((Face::L, Turn::Reverse)),
            FaceRotation::B => Some((Face::B, Turn::Quarter)),
            FaceRotation::B2 => Some((Face::B, Turn::Half)),
            FaceRotation::B2Prime => Some((Face::B, Turn::HalfReverse)),
            FaceRotation::BPrime => Some((Face::B, Turn::Reverse)),
            FaceRotation::Invalid => None,
        }
    }
}

impl FaceRotation {
    /// The text that writes the value: the face letter and the turn's
    /// suffix, or `(Invalid)`.
    pub open spec fn token(self) -> Seq<char> {
        match (self.face(), self.turn()) {
            (Some(face), Some(turn)) => seq![face.letter()] + turn.suffix(),
            _ => "(Invalid)"@,
        }
    }

    /// The rotation made of a face and a turn, where both are there;
    /// `Invalid` otherwise.
    pub open spec fn compose_checked(face: Option<Face>, turn: Option<Turn>) -> FaceRotation {
        match (face, turn) {
            (Some(face), Some(turn)) => FaceRotation::compose(face, turn),
            _ => FaceRotation::Invalid,
        }
    }

    /// The value that a token writes, in either case of the face letter;
    /// `Invalid` for any other text.
    pub open spec fn parse(token: Seq<char>) -> FaceRotation {
        if token.len() == 0 {
            FaceRotation::Invalid
        } else {
            FaceRotation::compose_checked(
                Face::named_by(token[0]),
                Turn::written_as(token.drop_first()),
            )
        }
    }

    /// The rotation of `face` by `turn`.
    pub fn from_parts(face: Face, turn: Turn) -> (rotation: FaceRotation)
        ensures
            rotation == FaceRotation::compose(face, turn),
            rotation.face() == Some(face),
            rotation.turn() == Some(turn),
    {
        match face {
            Face::R => match turn {
                Turn::Quarter => FaceRotation::R,
                Turn::Half => FaceRotation::R2,
                Turn::HalfReverse => FaceRotation::R2Prime,
                Turn::Reverse => FaceRotation::RPrime,
            },
            Face::F => match turn {
                Turn::Quarter => FaceRotation::F,
                Turn::Half => FaceRotation::F2,
                Turn::HalfReverse => FaceRotation::F2Prime,
                Turn::Reverse => FaceRotation::FPrime,
            },
            Face::D => match turn {
                Turn::Quarter => FaceRotation::D,
                Turn::Half => FaceRotation::D2,
                Turn::HalfReverse => FaceRotation::D2Prime,
                Turn::Reverse => FaceRotation::DPrime,
            },
            Face::L => match turn {
                Turn::Quarter => FaceRotation::L,
                Turn::Half => FaceRotation::L2,
                Turn::HalfReverse => FaceRotation::L2Prime,
                Turn::Reverse => FaceRotation::LPrime,
            },
            Face::B => match turn {
                Turn::Quarter => FaceRotation::B,
                Turn::Half => FaceRotation::B2,
                Turn::HalfReverse => FaceRotation::B2Prime,
                Turn::Reverse => FaceRotation::BPrime,
            },
        }
    }

    /// The text that writes the value.
    pub fn to_string(&self) -> (text: String)
        ensures
            text@ == self.token(),
    {
        match self.parts() {
            Some((face, turn)) => face.name().to_owned().concat(turn.name()),
            None => "(Invalid)".to_owned(),
        }
    }

    /// Reads a token: a face letter in either case, then nothing, `2`, `2'`
    /// or `'`. Any text that names no rotation reads as `Invalid`.
    pub fn from_chars(token: &[char]) -> (rotation: FaceRotation)
        ensures
            rotation == FaceRotation::parse(token@),
    {
        proof {
            Turn::lemma_written_as(token@.drop_first());
        }
        let n: usize = token.len();
        if n == 0 || n > 3 {
            return FaceRotation::Invalid;
        }
        let face: Option<Face> = Face::from_letter(token[0]);
        let turn: Option<Turn> = if n == 1 {
            Some(Turn::Quarter)
        } else if n == 2 {
            if token[1] == '2' {
                Some(Turn::Half)
            } else if token[1] == '\'' {
                Some(Turn::Reverse)
            } else {
                None
            }
        } else {
            if token[1] == '2' && token[2] == '\'' {
                Some(Turn::HalfReverse)
            } else {
                None
            }
        };
        match (face, turn) {
            (Some(face), Some(turn)) => FaceRotation::from_parts(face, turn),
            _ => FaceRotation::Invalid,
        }
    }
}

impl From<FaceRotation> for u8 {
    /// The device code of a rotation.
    fn from(r: FaceRotation) -> (code: u8) {
        match r.parts() {
            Some((face, turn)) => face.base_code() + turn.step_code(),
            None => INVALID_CODE,
        }
    }
}

impl vstd::std_specs::convert::FromSpecImpl<FaceRotation> for u8 {
    open spec fn obeys_from_spec() -> bool {
        true
    }

    open spec fn from_spec(r: FaceRotation) -> u8 {
        r.code()
    }
}

impl<'a> From<&'a FaceRotation> for u8 {
    /// The device code of a rotation.
    fn from(r: &'a FaceRotation) -> (code: u8) {
        u8::from(*r)
    }
}

impl<'a> vstd::std_specs::convert::FromSpecImpl<&'a FaceRotation> for u8 {
    open spec fn obeys_from_spec() -> bool {
        true
    }

    open spec fn from_spec(r: &'a FaceRotation) -> u8 {
        r.code()
    }
}

impl<'a> From<&'a str> for FaceRotation {
    /// Reads a token, taking the face letter in either case.
    fn from(s: &'a str) -> (rotation: FaceRotation) {
        FaceRotation::from_chars(chars_of(s).as_slice())
    }
}

impl<'a> vstd::std_specs::convert::FromSpecImpl<&'a str> for FaceRotation {
    open spec fn obeys_from_spec() -> bool {
        true
    }

    open spec fn from_spec(s: &'a str) -> FaceRotation {
        FaceRotation::parse(s@)
    }
}

impl From<String> for FaceRotation {
    /// Reads a token, taking the face letter in either case.
    fn from(s: String) -> (rotation: FaceRotation) {
        FaceRotation::from_chars(chars_of(s.as_str()).as_slice())
    }
}

impl vstd::std_specs::convert::FromSpecImpl<String> for FaceRotation {
    open spec fn obeys_from_spec() -> bool {
        true
    }

    open spec fn from_spec(s: String) -> FaceRotation {
        FaceRotation::parse(s@)
    }
}

impl std::str::FromStr for FaceRotation {
    type Err = ();

    /// Reads a token, taking the face letter in either case. A token that
    /// names no rotation reads as `Invalid`; there is no error.
    fn from_str(s: &str) -> (rotation: Result<FaceRotation, ()>)
        ensures
            rotation == Ok::<FaceRotation, ()>(FaceRotation::parse(s@)),
    {
        Ok(FaceRotation::from_chars(chars_of(s).as_slice()))
    }
}

/// Reading back the text of a value gives the value.
pub proof fn lemma_parse_token_roundtrip(m: FaceRotation)
    ensures
        FaceRotation::parse(m.token()) == m,
{
    let token = m.token();
    Turn::lemma_written_as(token.drop_first());
    match (m.face(), m.turn()) {
        (Some(face), Some(turn)) => {
            assert(token.len() == 1 + turn.suffix().len());
            assert(token[0] == face.letter());
            assert(token.drop_first() =~= turn.suffix());
        },
        _ => {
            reveal_strlit("(Invalid)");
            assert(token[0] == '(');
        },
    }
}

/// The code of a rotation lies in `0..=14`; the code of `Invalid` is
/// `INVALID_CODE`, which is no rotation's code.
pub proof fn lemma_code_range(m: FaceRotation)
    ensures
        m.is_valid() ==> m.code() <= 14,
        !m.is_valid() ==> m.code() == INVALID_CODE,
        m.code() <= 0x0f <==> m.is_valid(),
{
}

/// For each face, both half turns have one code, and that code differs from
/// the codes of the face's quarter turn and reverse quarter turn, which
/// differ from each other.
pub proof fn lemma_half_turns_collapse(face: Face)
    ensures
        FaceRotation::compose(face, Turn::Half).code() == FaceRotation::compose(
            face,
            Turn::HalfReverse,
        ).code(),
        FaceRotation::compose(face, Turn::Half).code() != FaceRotation::compose(
            face,
            Turn::Quarter,
        ).code(),
        FaceRotation::compose(face, Turn::Half).code() != FaceRotation::compose(
            face,
            Turn::Reverse,
        ).code(),
        FaceRotation::compose(face, Turn::Quarter).code() != FaceRotation::compose(
            face,
            Turn::Reverse,
        ).code(),
{
}

/// Two values have one code only if they are equal or are the two half
/// turns of one face.
pub proof fn lemma_code_collision(a: FaceRotation, b: FaceRotation)
    ensures
        a.code() == b.code() <==> a == b || (a.face() == b.face() && a.is_half_turn()
            && b.is_half_turn()),
{
}

/// The twenty rotations, face by face, each face's turns in the order
/// quarter, half, half reverse, reverse.
pub open spec fn rotations() -> Seq<FaceRotation> {
    seq![
        FaceRotation::R,
        FaceRotation::R2,
        FaceRotation::R2Prime,
        FaceRotation::RPrime,
        FaceRotation::F,
        FaceRotation::F2,
        FaceRotation::F2Prime,
        FaceRotation::FPrime,
        FaceRotation::D,
        FaceRotation::D2,
        FaceRotation::D2Prime,
        FaceRotation::DPrime,
        FaceRotation::L,
        FaceRotation::L2,
        FaceRotation::L2Prime,
        FaceRotation::LPrime,
        FaceRotation::B,
        FaceRotation::B2,
        FaceRotation::B2Prime,
        FaceRotation::BPrime,
    ]
}

/// Whether `picked` is a draw of `amount` items from `pool` without
/// replacement: as many items as asked for, or the whole pool if that is
/// fewer, each taken from a position of its own.
pub open spec fn is_draw(picked: Seq<FaceRotation>, pool: Seq<FaceRotation>, amount: nat) -> bool {
    &&& picked.len() == if amount <= pool.len() {
        amount
    } else {
        pool.len()
    }
    &&& exists|places: Seq<int>|
        {
            &&& places.len() == picked.len()
            &&& places.no_duplicates()
            &&& forall|i: int|
                0 <= i < places.len() ==> 0 <= #[trigger] places[i] < pool.len() && picked[i]
                    == pool[places[i]]
        }
}

/// The table lists every rotation once, and nothing else.
pub proof fn lemma_rotations()
    ensures
        rotations().len() == 20,
        rotations().no_duplicates(),
        forall|m: FaceRotation| m.is_valid() <==> rotations().contains(m),
{
    let table = rotations();
    assert forall|m: FaceRotation| m.is_valid() implies table.contains(m) by {
        let at = 4 * m.face().unwrap().index() + match m.turn().unwrap() {
            Turn::Quarter => 0int,
            Turn::Half => 1,
            Turn::HalfReverse => 2,
            Turn::Reverse => 3,
        };
        assert(table[at] == m);
    }
}

/// The table of rotations from which scrambles are drawn.
pub struct FaceRotationMap {
    map: Vec<FaceRotation>,
}

impl View for FaceRotationMap {
    type V = Seq<FaceRotation>;

    closed spec fn view(&self) -> Seq<FaceRotation> {
        self.map@
    }
}

/// Draws `amount` items of `pool` at random with
/// `rand::seq::SliceRandom::choose_multiple` on the thread's generator,
/// `rand::thread_rng`. The method samples that many distinct positions of
/// the slice, or all of them if the slice is shorter, and yields the item at
/// each; which positions, and in which order, is left to chance. The pool
/// is kept to the lengths that the method samples with 32-bit positions:
/// beyond them it takes another path, which does not allow for a draw of
/// the whole pool.
#[verifier::external_body]
fn choose_multiple(pool: &Vec<FaceRotation>, amount: usize) -> (picked: Vec<FaceRotation>)
    requires
        pool@.len() <= u32::MAX,
    ensures
        is_draw(picked@, pool@, amount as nat),
{
    pool.choose_multiple(&mut rand::thread_rng(), amount).cloned().collect()
}

/// A draw without replacement from a pool that holds nothing twice holds
/// nothing twice, and only what the pool holds.
pub proof fn lemma_draw_distinct(picked: Seq<FaceRotation>, pool: Seq<FaceRotation>, amount: nat)
    requires
        is_draw(picked, pool, amount),
        pool.no_duplicates(),
    ensures
        picked.no_duplicates(),
        forall|i: int| 0 <= i < picked.len() ==> pool.contains(#[trigger] picked[i]),
{
    let places = choose|places: Seq<int>|
        {
            &&& places.len() == picked.len()
            &&& places.no_duplicates()
            &&& forall|i: int|
                0 <= i < places.len() ==> 0 <= #[trigger] places[i] < pool.len() && picked[i]
                    == pool[places[i]]
        };
    assert forall|i: int, j: int| 0 <= i < picked.len() && 0 <= j < picked.len() && i != j implies picked[i]
        != picked[j] by {
        assert(places[i] != places[j]);
    }
    assert forall|i: int| 0 <= i < picked.len() implies pool.contains(#[trigger] picked[i]) by {
        assert(pool[places[i]] == picked[i]);
    }
}

/// A draw of the whole pool, from a pool that holds nothing twice, holds
/// every item of the pool.
pub proof fn lemma_draw_all(picked: Seq<FaceRotation>, pool: Seq<FaceRotation>, amount: nat)
    requires
        is_draw(picked, pool, amount),
        pool.no_duplicates(),
        amount >= pool.len(),
    ensures
        forall|m: FaceRotation| pool.contains(m) ==> picked.contains(m),
{
    lemma_draw_distinct(picked, pool, amount);
    picked.unique_seq_to_set();
    pool.unique_seq_to_set();
    assert(picked.to_set().subset_of(pool.to_set())) by {
        assert forall|m: FaceRotation| picked.to_set().contains(m) implies pool.to_set().contains(
            m,
        ) by {
            let i = choose|i: int| 0 <= i < picked.len() && picked[i] == m;
            assert(pool.contains(picked[i]));
        }
    }
    vstd::set_lib::lemma_subset_equality(picked.to_set(), pool.to_set());
    assert forall|m: FaceRotation| pool.contains(m) implies picked.contains(m) by {
        assert(pool.to_set().contains(m));
        assert(picked.to_set().contains(m));
    }
}

impl FaceRotationMap {
    /// The table of all twenty rotations.
    pub fn new() -> (table: Self)
        ensures
            table@ == rotations(),
    {
        let map = vec![
            FaceRotation::R,
            FaceRotation::R2,
            FaceRotation::R2Prime,
            FaceRotation::RPrime,
            FaceRotation::F,
            FaceRotation::F2,
            FaceRotation::F2Prime,
            FaceRotation::FPrime,
            FaceRotation::D,
            FaceRotation::D2,
            FaceRotation::D2Prime,
            FaceRotation::DPrime,
            FaceRotation::L,
            FaceRotation::L2,
            FaceRotation::L2Prime,
            FaceRotation::LPrime,
            FaceRotation::B,
            FaceRotation::B2,
            FaceRotation::B2Prime,
            FaceRotation::BPrime,
        ];
        assert(map@ =~= rotations());
        Self { map }
    }

    /// Every table holds the twenty rotations in their order.
    #[verifier::type_invariant]
    spec fn holds_all_rotations(self) -> bool {
        self.map@ == rotations()
    }

    /// The device code of a value.
    pub fn get(&self, rotation: FaceRotation) -> (code: u8)
        ensures
            code == rotation.code(),
    {
        u8::from(rotation)
    }

    /// Draws `n` rotations at random without replacement, or all twenty if
    /// `n` is larger. No rotation comes twice; both half turns of a face may
    /// come, though they share a code.
    pub fn get_random_moves(&self, n: usize) -> (moves: Vec<FaceRotation>)
        ensures
            is_draw(moves@, rotations(), n as nat),
            moves@.len() == if n <= 20 {
                n
            } else {
                20
            },
            moves@.no_duplicates(),
            forall|i: int| 0 <= i < moves@.len() ==> (#[trigger] moves@[i]).is_valid(),
            n >= 20 ==> forall|m: FaceRotation| m.is_valid() ==> moves@.contains(m),
    {
        proof {
            use_type_invariant(self);
        }
        let moves = choose_multiple(&self.map, n);
        proof {
            lemma_rotations();
            lemma_draw_distinct(moves@, rotations(), n as nat);
            if n >= 20 {
                lemma_draw_all(moves@, rotations(), n as nat);
            }
        }
        moves
    }
}

impl Default for FaceRotationMap {
    /// The table of all twenty rotations.
    fn default() -> (table: Self)
        ensures
            table@ == rotations(),
    {
        FaceRotationMap::new()
    }
}

} // verus!
