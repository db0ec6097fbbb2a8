//! What a user asks of the robot, as it is written on a command line or
//! typed at a prompt.

use crate::error::ControllerError;
use crate::face_rotation::FaceRotation;
use crate::gan_robot_controller::{
    configured, parsed_uuid, GanRobotController, Uninitialized, UninitializedView,
};
use crate::text::{chars_of, split_words, word_views, words};
use vstd::prelude::*;

verus! {

/// The rotations that a text names, word by word. A word that names none
/// stands as `Invalid`.
pub open spec fn moves_of(text: Seq<char>) -> Seq<FaceRotation> {
    words(text).map_values(|w: Seq<char>| FaceRotation::parse(w))
}

/// Reads a sequence of moves: words parted by whitespace, each a face
/// letter in either case, followed by nothing, `2`, `2'` or `'`. No word is
/// refused: one that names no rotation is read as `Invalid`.
pub fn parse_moves(text: &str) -> (moves: Vec<FaceRotation>)
    ensures
        moves@ == moves_of(text@),
{
    let chars = chars_of(text);
    let list = split_words(chars.as_slice());
    let mut moves: Vec<FaceRotation> = Vec::new();
    let mut i: usize = 0;
    while i < list.len()
        invariant
            i <= list@.len(),
            word_views(list@) == words(text@),
            moves@ == moves_of(text@).take(i as int),
        decreases list@.len() - i,
    {
        assert(word_views(list@)[i as int] == list@[i as int]@);
        moves.push(FaceRotation::from_chars(list[i].as_slice()));
        assert(moves@ =~= moves_of(text@).take(i + 1));
        i = i + 1;
    }
    assert(moves@ =~= moves_of(text@));
    moves
}

/// The value of a decimal digit; `None` for any other character.
pub open spec fn digit_value(c: char) -> Option<nat> {
    if '0' <= c <= '9' {
        Some((c as u32 - '0' as u32) as nat)
    } else {
        None
    }
}

/// The number that a run of decimal digits writes; `None` if a character
/// is no digit. The empty run writes zero.
pub open spec fn decimal(digits: Seq<char>) -> Option<nat>
    decreases digits.len(),
{
    if digits.len() == 0 {
        Some(0)
    } else {
        match (decimal(digits.drop_last()), digit_value(digits.last())) {
            (Some(value), Some(digit)) => Some(10 * value + digit),
            _ => None,
        }
    }
}

/// The device code that a word writes in decimal: digits, with or without
/// a `+` before them, of a value up to 255. Any other word writes zero.
pub open spec fn raw_code(word: Seq<char>) -> u8 {
    let digits = if word.len() > 0 && word[0] == '+' {
        word.drop_first()
    } else {
        word
    };
    match decimal(digits) {
        Some(value) => if digits.len() > 0 && value <= 255 {
            value as u8
        } else {
            0
        },
        None => 0,
    }
}

/// The device codes that a text writes, word by word.
pub open spec fn raw_codes_of(text: Seq<char>) -> Seq<u8> {
    words(text).map_values(|w: Seq<char>| raw_code(w))
}

/// A run of digits writes no less than any run that it starts with, and
/// writes nothing if a run that it starts with writes nothing.
proof fn lemma_decimal_prefix(digits: Seq<char>, n: int)
    requires
        0 <= n <= digits.len(),
    ensures
        decimal(digits.take(n)) is None ==> decimal(digits) is None,
        decimal(digits) matches Some(value) ==> decimal(digits.take(n)) matches Some(part)
            && part <= value,
    decreases digits.len() - n,
{
    if n == digits.len() {
        assert(digits.take(n) =~= digits);
    } else {
        lemma_decimal_prefix(digits, n + 1);
        assert(digits.take(n + 1).drop_last() =~= digits.take(n));
    }
}

/// Reads a device code written in decimal.
pub fn parse_raw_code(word: &[char]) -> (code: u8)
    ensures
        code == raw_code(word@),
{
    let n: usize = word.len();
    let start: usize = if n > 0 && word[0] == '+' {
        1
    } else {
        0
    };
    if start == n {
        return 0;
    }
    let ghost digits = word@.skip(start as int);
    let mut value: u16 = 0;
    let mut i: usize = start;
    proof {
        assert(digits.take(0) =~= Seq::empty());
        assert(word@.skip(0) =~= word@);
        assert(word@.skip(1) =~= word@.drop_first());
    }
    while i < n
        invariant
            n == word@.len(),
            start <= i <= n,
            start < n,
            start == if word@[0] == '+' {
                1int
            } else {
                0int
            },
            digits == word@.skip(start as int),
            digits == if word@[0] == '+' {
                word@.drop_first()
            } else {
                word@
            },
            decimal(digits.take(i - start)) == Some(value as nat),
            value <= 255,
        decreases n - i,
    {
        let c: char = word[i];
        proof {
            lemma_decimal_prefix(digits, i - start + 1);
            assert(digits.take(i - start + 1).drop_last() =~= digits.take(i - start));
            assert(digits.take(i - start + 1).last() == c);
        }
        if c < '0' || c > '9' {
            return 0;
        }
        let digit: u16 = (c as u32 - '0' as u32) as u16;
        value = 10 * value + digit;
        if value > 255 {
            return 0;
        }
        i = i + 1;
    }
    assert(digits.take(n - start) =~= digits);
    value as u8
}

/// Reads a sequence of device codes written in decimal, parted by
/// whitespace. No word is refused: one that writes no code counts as zero.
pub fn parse_raw_moves(text: &str) -> (codes: Vec<u8>)
    ensures
        codes@ == raw_codes_of(text@),
{
    let chars = chars_of(text);
    let list = split_words(chars.as_slice());
    let mut codes: Vec<u8> = Vec::new();
    let mut i: usize = 0;
    while i < list.len()
        invariant
            i <= list@.len(),
            word_views(list@) == words(text@),
            codes@ == raw_codes_of(text@).take(i as int),
        decreases list@.len() - i,
    {
        assert(word_views(list@)[i as int] == list@[i as int]@);
        codes.push(parse_raw_code(list[i].as_slice()));
        assert(codes@ =~= raw_codes_of(text@).take(i + 1));
        i = i + 1;
    }
    assert(codes@ =~= raw_codes_of(text@));
    codes
}

/// What the user wants done.
#[derive(Debug, PartialEq, Eq)]
pub enum Command {
    /// Scramble the cube with `num` random moves.
    Scramble { num: usize },
    /// Make the moves that `moves` names, word by word.
    Move { moves: String },
    /// Take requests line by line until told to stop. With `debug` the
    /// lines hold device codes in decimal in place of move names.
    Repl { debug: bool },
}

/// The settings of one run: which robot to talk to, through which
/// characteristics, and what to have it do.
#[derive(Debug, PartialEq, Eq)]
pub struct Args {
    /// The name that the robot advertises.
    pub name: String,
    /// The UUID of the characteristic that moves are written to.
    pub move_characteristic: String,
    /// The UUID of the characteristic that the status is read from.
    pub status_characteristic: String,
    /// The time in milliseconds after which the search for the robot is
    /// given up, if any.
    pub scan_timeout_ms: Option<u64>,
    /// What to have the robot do.
    pub command: Command,
}

/// The session that settings describe: the one made of the name and the
/// two identifiers, with the time limit on its scan if one is set.
pub open spec fn described(
    made: Result<UninitializedView, ControllerError>,
    scan_timeout_ms: Option<u64>,
) -> Result<UninitializedView, ControllerError> {
    match (made, scan_timeout_ms) {
        (Ok(view), Some(ms)) => Ok(UninitializedView { scan_timeout_ms: Some(ms), ..view }),
        _ => made,
    }
}

/// One thing to do with a connected robot.
#[derive(Debug, PartialEq, Eq)]
pub enum Request {
    /// Make this many random moves.
    Scramble(usize),
    /// Make these moves.
    Moves(Vec<FaceRotation>),
    /// Make the moves with these device codes.
    RawMoves(Vec<u8>),
    /// Take further requests at the prompt.
    Prompt { debug: bool },
    /// Stop.
    Exit,
}

/// Whether a line typed at the prompt tells the program to stop: whether
/// it holds the one word `exit`, with whitespace before or behind it at
/// most.
pub open spec fn is_exit(line: Seq<char>) -> bool {
    words(line) == seq!["exit"@]
}

/// What a command asks for first, or the refusal of a scramble that is
/// longer than one write.
pub open spec fn requested(command: Command, request: Result<Request, ControllerError>) -> bool {
    match command {
        Command::Scramble { num } => if num > crate::MAX_MOVES_PER_WRITE {
            request == Err::<Request, ControllerError>(ControllerError::TooManyMoves)
        } else {
            request matches Ok(Request::Scramble(n)) && n == num
        },
        Command::Move { moves } => request matches Ok(Request::Moves(list)) && list@ == moves_of(
            moves@,
        ),
        Command::Repl { debug } => request matches Ok(Request::Prompt { debug: d }) && d == debug,
    }
}

/// What a line typed at the prompt asks for.
pub open spec fn typed(line: Seq<char>, debug: bool, request: Request) -> bool {
    if is_exit(line) {
        request is Exit
    } else if debug {
        request matches Request::RawMoves(codes) && codes@ == raw_codes_of(line)
    } else {
        request matches Request::Moves(list) && list@ == moves_of(line)
    }
}

impl Command {
    /// What the command asks for first. A scramble of more moves than one
    /// write holds is refused here, before the robot is asked for anything.
    pub fn request(&self) -> (request: Result<Request, ControllerError>)
        ensures
            requested(*self, request),
    {
        match self {
            Command::Scramble { num } => if *num > crate::MAX_MOVES_PER_WRITE {
                Err(ControllerError::TooManyMoves)
            } else {
                Ok(Request::Scramble(*num))
            },
            Command::Move { moves } => Ok(Request::Moves(parse_moves(moves.as_str()))),
            Command::Repl { debug } => Ok(Request::Prompt { debug: *debug }),
        }
    }
}

impl Args {
    /// The unconnected session that the settings describe.
    pub fn controller(&self) -> (made: Result<GanRobotController<Uninitialized>, ControllerError>)
        ensures
            match made {
                Ok(controller) => described(
                    configured(
                        self.name@,
                        parsed_uuid(self.move_characteristic@),
                        parsed_uuid(self.status_characteristic@),
                    ),
                    self.scan_timeout_ms,
                ) == Ok::<UninitializedView, ControllerError>(controller@),
                Err(e) => described(
                    configured(
                        self.name@,
                        parsed_uuid(self.move_characteristic@),
                        parsed_uuid(self.status_characteristic@),
                    ),
                    self.scan_timeout_ms,
                ) == Err::<UninitializedView, ControllerError>(e),
            },
    {
        let made = GanRobotController::try_new(
            self.name.as_str(),
            self.move_characteristic.as_str(),
            self.status_characteristic.as_str(),
        );
        match (made, self.scan_timeout_ms) {
            (Ok(controller), Some(ms)) => Ok(controller.with_scan_timeout(ms)),
            (made, _) => made,
        }
    }
}

/// Reads a line typed at the prompt: the word `exit` stops the program;
/// any other line names moves, or in debug mode writes their device codes.
pub fn read_line(line: &str, debug: bool) -> (request: Request)
    ensures
        typed(line@, debug, request),
{
    let chars = chars_of(line);
    let list = split_words(chars.as_slice());
    if list.len() == 1 && is_exit_word(list[0].as_slice()) {
        proof {
            assert(word_views(list@)[0] == list@[0]@);
            assert(words(line@) =~= seq!["exit"@]);
        }
        return Request::Exit;
    }
    proof {
        if words(line@) == seq!["exit"@] {
            assert(word_views(list@).len() == list@.len());
            assert(seq!["exit"@].len() == 1);
            assert(word_views(list@)[0] == list@[0]@);
            assert(seq!["exit"@][0] == "exit"@);
        }
    }
    if debug {
        Request::RawMoves(parse_raw_moves(line))
    } else {
        Request::Moves(parse_moves(line))
    }
}

/// Whether a word is `exit`.
fn is_exit_word(word: &[char]) -> (exit: bool)
    ensures
        exit == (word@ == "exit"@),
{
    proof {
        reveal_strlit("exit");
    }
    let exit = word.len() == 4 && word[0] == 'e' && word[1] == 'x' && word[2] == 'i' && word[3]
        == 't';
    assert(exit <==> word@ =~= "exit"@);
    exit
}

} // verus!
