use vstd::prelude::*;

verus! {

/// The four headings a rover can face.
#[derive(PartialEq, Eq, Structural, Debug, Clone, Copy)]
pub enum Direction {
    North,
    East,
    West,
    South,
}

/// Whether a move goes along the current heading or against it.
#[derive(PartialEq, Eq, Structural, Debug, Clone, Copy)]
pub enum MoveDirection {
    Forward,
    Backward,
}

/// Which way a turn rotates the heading.
#[derive(PartialEq, Eq, Structural, Debug, Clone, Copy)]
pub enum TurnDirection {
    Left,
    Right,
}

/// Why a textual command was rejected.
#[derive(PartialEq, Eq, Structural, Debug, Clone, Copy)]
pub enum CommandError {
    UnknownDirection,
    InvalidNumber,
    Unsupported,
}

/// A parsed command, ready to run against a rover.
#[derive(Debug)]
pub enum Command {
    Move { distance: i32, direction: MoveDirection },
    Turn { direction: TurnDirection },
    Print { message: String },
}

/// What a command is in specifications.
pub enum CommandModel {
    Move { distance: int, direction: MoveDirection },
    Turn { direction: TurnDirection },
    Print { message: Seq<char> },
}

impl View for Command {
    type V = CommandModel;

    open spec fn view(&self) -> CommandModel {
        match self {
            Command::Move { distance, direction } => CommandModel::Move {
                distance: *distance as int,
                direction: *direction,
            },
            Command::Turn { direction } => CommandModel::Turn { direction: *direction },
            Command::Print { message } => CommandModel::Print { message: message@ },
        }
    }
}

/// The words of `s` split on `'-'`: always at least one word, empty words
/// where separators touch.
pub open spec fn split_dash(s: Seq<char>) -> Seq<Seq<char>>
    decreases s.len(),
{
    if s.len() == 0 {
        seq![Seq::empty()]
    } else {
        let rest = split_dash(s.drop_first());
        if s.first() == '-' {
            seq![Seq::<char>::empty()] + rest
        } else {
            seq![seq![s.first()] + rest.first()] + rest.drop_first()
        }
    }
}

/// The words of a vector of words, each as its character sequence.
pub open spec fn words_view(words: Seq<Vec<char>>) -> Seq<Seq<char>> {
    words.map_values(|w: Vec<char>| w@)
}

/// The characters of a string, as a vector.
fn to_char_vec(s: &str) -> (chars: Vec<char>)
    ensures
        chars@ == s@,
{
    let n = s.unicode_len();
    let mut chars: Vec<char> = Vec::new();
    let mut i: usize = 0;
    while i < n
        invariant
            i <= n,
            n == s@.len(),
            chars@ =~= s@.take(i as int),
        decreases n - i,
    {
        chars.push(s.get_char(i));
        proof {
            assert(chars@ =~= s@.take(i as int + 1));
        }
        i = i + 1;
    }
    proof {
        assert(s@.take(n as int) =~= s@);
    }
    chars
}

/// Split a command into its words on `'-'`, scanning from the back so each
/// step matches one unfolding of `split_dash`.
fn split_dash_exec(chars: &Vec<char>) -> (words: Vec<Vec<char>>)
    ensures
        words_view(words@) =~= split_dash(chars@),
        words@.len() >= 1,
{
    let mut i = chars.len();
    let mut words: Vec<Vec<char>> = Vec::new();
    words.push(Vec::new());
    proof {
        assert(chars@.skip(i as int).len() == 0);
        assert(words_view(words@) =~= split_dash(chars@.skip(i as int)));
    }
    while i > 0
        invariant
            i <= chars@.len(),
            words@.len() >= 1,
            words_view(words@) =~= split_dash(chars@.skip(i as int)),
        decreases i,
    {
        let ghost before = words_view(words@);
        let ghost suffix = chars@.skip(i as int);
        i = i - 1;
        let c = chars[i];
        proof {
            assert(chars@.skip(i as int).first() == c);
            assert(chars@.skip(i as int).drop_first() =~= suffix);
        }
        if c == '-' {
            words.insert(0, Vec::new());
            proof {
                assert(words_view(words@) =~= seq![Seq::<char>::empty()] + before);
            }
        } else {
            let mut head = words.remove(0);
            head.insert(0, c);
            proof {
                assert(head@ =~= seq![c] + before.first());
            }
            words.insert(0, head);
            proof {
                assert(words_view(words@) =~= seq![seq![c] + before.first()]
                    + before.drop_first());
            }
        }
    }
    proof {
        assert(chars@.skip(0) =~= chars@);
    }
    words
}

/// Whether a word equals a keyword.
fn word_matches(word: &Vec<char>, keyword: &str) -> (r: bool)
    ensures
        r == (word@ == keyword@),
{
    let n = keyword.unicode_len();
    if word.len() != n {
        return false;
    }
    let mut i: usize = 0;
    while i < n
        invariant
            i <= n,
            n == keyword@.len(),
            word@.len() == n,
            forall|k: int| 0 <= k < i ==> word@[k] == keyword@[k],
        decreases n - i,
    {
        if word[i] != keyword.get_char(i) {
            return false;
        }
        i = i + 1;
    }
    proof {
        assert(word@ =~= keyword@);
    }
    true
}

/// Whether a character is an ASCII digit.
pub open spec fn is_digit_char(c: char) -> bool {
    '0' <= c <= '9'
}

/// The numeric value of one ASCII digit.
pub open spec fn digit_value(c: char) -> int {
    c as int - '0' as int
}

/// The value of a run of ASCII digits, most significant first.
pub open spec fn digits_value(digits: Seq<char>) -> int
    decreases digits.len(),
{
    if digits.len() == 0 {
        0
    } else {
        digits_value(digits.drop_last()) * 10 + digit_value(digits.last())
    }
}

/// The digits of a number written with an optional leading sign.
pub open spec fn number_digits(s: Seq<char>) -> Seq<char> {
    if s.len() > 0 && (s[0] == '-' || s[0] == '+') {
        s.drop_first()
    } else {
        s
    }
}

/// Whether a written number carries a minus sign.
pub open spec fn number_negative(s: Seq<char>) -> bool {
    s.len() > 0 && s[0] == '-'
}

/// What `str::parse::<i32>` accepts: an optional sign, then at least one
/// ASCII digit, with the value in the range of the type. `None` is a parse
/// error.
pub open spec fn parse_i32_spec(s: Seq<char>) -> Option<int> {
    let digits = number_digits(s);
    if digits.len() == 0 || !(forall|k: int| 0 <= k < digits.len() ==> is_digit_char(
        #[trigger] digits[k],
    )) {
        None
    } else {
        let magnitude = digits_value(digits);
        let value = if number_negative(s) {
            -magnitude
        } else {
            magnitude
        };
        if i32::MIN <= value <= i32::MAX {
            Some(value)
        } else {
            None
        }
    }
}

/// Digit runs have non-negative values.
proof fn lemma_digits_value_nonneg(digits: Seq<char>)
    requires
        forall|k: int| 0 <= k < digits.len() ==> is_digit_char(#[trigger] digits[k]),
    ensures
        digits_value(digits) >= 0,
    decreases digits.len(),
{
    if digits.len() > 0 {
        lemma_digits_value_nonneg(digits.drop_last());
    }
}

/// A digit run is worth at least any of its prefixes.
proof fn lemma_digits_value_prefix_le(digits: Seq<char>, i: int)
    requires
        forall|k: int| 0 <= k < digits.len() ==> is_digit_char(#[trigger] digits[k]),
        0 <= i <= digits.len(),
    ensures
        digits_value(digits.take(i)) <= digits_value(digits),
    decreases digits.len() - i,
{
    if i == digits.len() {
        assert(digits.take(i) =~= digits);
    } else {
        lemma_digits_value_prefix_le(digits, i + 1);
        let longer = digits.take(i + 1);
        assert(longer.drop_last() =~= digits.take(i));
        assert(longer.last() == digits[i]);
        lemma_digits_value_nonneg(digits.take(i));
    }
}

/// Parse a word as an `i32`, exactly as `str::parse::<i32>` would.
fn parse_i32(word: &Vec<char>) -> (r: Result<i32, CommandError>)
    ensures
        match parse_i32_spec(word@) {
            Some(value) => r is Ok && r->Ok_0 == value,
            None => r is Err && r->Err_0 == CommandError::InvalidNumber,
        },
{
    let len = word.len();
    let negative = len > 0 && word[0] == '-';
    let start: usize = if len > 0 && (word[0] == '-' || word[0] == '+') {
        1
    } else {
        0
    };
    let ghost digits = number_digits(word@);
    proof {
        assert(negative == number_negative(word@));
        assert(digits.len() == len - start);
        assert(forall|k: int| 0 <= k < digits.len() ==> digits[k] == word@[k + start]);
    }
    if len == start {
        return Err(CommandError::InvalidNumber);
    }
    let mut i = start;
    while i < len
        invariant
            start <= i <= len,
            len == word@.len(),
            start == 0 || start == 1,
            digits == number_digits(word@),
            digits.len() == len - start,
            forall|k: int| 0 <= k < digits.len() ==> digits[k] == word@[k + start],
            forall|k: int| 0 <= k < i - start ==> is_digit_char(#[trigger] digits[k]),
        decreases len - i,
    {
        let c = word[i];
        if c < '0' || c > '9' {
            proof {
                assert(digits[i - start as int] == c);
            }
            return Err(CommandError::InvalidNumber);
        }
        i = i + 1;
    }
    // all characters after the sign are digits; accumulate the magnitude,
    // stopping as soon as it can no longer fit an i32 either way
    let mut magnitude: i64 = 0;
    let mut j = start;
    while j < len
        invariant
            start <= j <= len,
            len == word@.len(),
            start == 0 || start == 1,
            digits == number_digits(word@),
            digits.len() == len - start,
            forall|k: int| 0 <= k < digits.len() ==> digits[k] == word@[k + start],
            forall|k: int| 0 <= k < digits.len() ==> is_digit_char(#[trigger] digits[k]),
            magnitude == digits_value(digits.take(j - start as int)),
            0 <= magnitude <= 0x8000_0000,
        decreases len - j,
    {
        let c = word[j];
        proof {
            assert(digits[j - start as int] == c);
            assert(digits.take(j - start as int + 1).drop_last() =~= digits.take(
                j - start as int,
            ));
            assert(digits.take(j - start as int + 1).last() == c);
        }
        magnitude = magnitude * 10 + (c as i64 - '0' as i64);
        if magnitude > 0x8000_0000 {
            proof {
                lemma_digits_value_prefix_le(digits, j - start as int + 1);
            }
            return Err(CommandError::InvalidNumber);
        }
        j = j + 1;
    }
    proof {
        assert(digits.take(digits.len() as int) =~= digits);
    }
    if negative {
        Ok((-magnitude) as i32)
    } else {
        if magnitude > 0x7fff_ffff {
            Err(CommandError::InvalidNumber)
        } else {
            Ok(magnitude as i32)
        }
    }
}

/// What parsing a textual command yields: the command, the error that
/// rejects it, or — `None` — an input on which parsing does not return at
/// all. A command is words separated by `'-'`: `move` with a direction and a
/// distance taken from the last word, `turn` with a direction, and, where
/// printing is supported, `print` followed by the text to print.
pub open spec fn parse_command_spec(s: Seq<char>, allow_print: bool) -> Option<Result<
    CommandModel,
    CommandError,
>> {
    let words = split_dash(s);
    if words[0] == "move"@ {
        if words.len() < 2 {
            None
        } else if words[1] == "forward"@ || words[1] == "backward"@ {
            let direction = if words[1] == "forward"@ {
                MoveDirection::Forward
            } else {
                MoveDirection::Backward
            };
            match parse_i32_spec(words.last()) {
                Some(distance) => Some(Ok(CommandModel::Move { distance, direction })),
                None => Some(Err(CommandError::InvalidNumber)),
            }
        } else {
            Some(Err(CommandError::UnknownDirection))
        }
    } else if words[0] == "turn"@ {
        if words.len() < 2 {
            None
        } else if words[1] == "left"@ {
            Some(Ok(CommandModel::Turn { direction: TurnDirection::Left }))
        } else if words[1] == "right"@ {
            Some(Ok(CommandModel::Turn { direction: TurnDirection::Right }))
        } else {
            Some(Err(CommandError::Unsupported))
        }
    } else if allow_print && words[0] == "print"@ {
        if s.len() < 6 {
            None
        } else {
            Some(Ok(CommandModel::Print { message: s.skip(6) }))
        }
    } else {
        Some(Err(CommandError::Unsupported))
    }
}

/// Parse one textual command, exactly as `parse_command_spec` describes.
fn parse_command_exec(command: &str, allow_print: bool) -> (r: Result<Command, CommandError>)
    requires
        parse_command_spec(command@, allow_print) is Some,
    ensures
        ({
            let expected = parse_command_spec(command@, allow_print)->Some_0;
            match r {
                Ok(c) => expected is Ok && c@ == expected->Ok_0,
                Err(e) => expected is Err && e == expected->Err_0,
            }
        }),
{
    let chars = to_char_vec(command);
    let words = split_dash_exec(&chars);
    let ghost spec_words = split_dash(command@);
    proof {
        assert(words_view(words@) == spec_words);
        assert(words@[0]@ == spec_words[0]);
    }
    if word_matches(&words[0], "move") {
        if words.len() < 2 {
            proof {
                assert(false);
            }
            Err(CommandError::Unsupported)
        } else {
            proof {
                assert(words@[1]@ == spec_words[1]);
            }
            let forward = word_matches(&words[1], "forward");
            let backward = word_matches(&words[1], "backward");
            if forward || backward {
                let direction = if forward {
                    MoveDirection::Forward
                } else {
                    MoveDirection::Backward
                };
                proof {
                    assert(words@[words@.len() - 1]@ == spec_words.last());
                }
                match parse_i32(&words[words.len() - 1]) {
                    Ok(distance) => Ok(Command::Move { distance, direction }),
                    Err(e) => Err(e),
                }
            } else {
                Err(CommandError::UnknownDirection)
            }
        }
    } else if word_matches(&words[0], "turn") {
        if words.len() < 2 {
            proof {
                assert(false);
            }
            Err(CommandError::Unsupported)
        } else {
            proof {
                assert(words@[1]@ == spec_words[1]);
            }
            if word_matches(&words[1], "left") {
                Ok(Command::Turn { direction: TurnDirection::Left })
            } else if word_matches(&words[1], "right") {
                Ok(Command::Turn { direction: TurnDirection::Right })
            } else {
                Err(CommandError::Unsupported)
            }
        }
    } else if allow_print && word_matches(&words[0], "print") {
        let n = command.unicode_len();
        proof {
            assert(n >= 6);
        }
        let message = command.substring_char(6, n).to_owned();
        proof {
            assert(message@ == command@.skip(6));
        }
        Ok(Command::Print { message })
    } else {
        Err(CommandError::Unsupported)
    }
}

/// A command interpreter: it decides which textual commands are understood
/// and what they mean. Users may supply their own interpreter; the rover
/// only relies on this contract.
pub trait RoverProcessor {
    /// What `parse_command` yields on each input, or `None` on the inputs it
    /// does not accept at all.
    spec fn parse_result(&self, s: Seq<char>) -> Option<Result<CommandModel, CommandError>>;

    /// Parse one textual command.
    fn parse_command(&self, command: &str) -> (r: Result<Command, CommandError>)
        requires
            self.parse_result(command@) is Some,
        ensures
            ({
                let expected = self.parse_result(command@)->Some_0;
                match r {
                    Ok(c) => expected is Ok && c@ == expected->Ok_0,
                    Err(e) => expected is Err && e == expected->Err_0,
                }
            }),
    ;
}

/// The first interpreter: move and turn commands only.
pub struct RoverProcessorV1;

impl RoverProcessor for RoverProcessorV1 {
    open spec fn parse_result(&self, s: Seq<char>) -> Option<Result<CommandModel, CommandError>> {
        parse_command_spec(s, false)
    }

    fn parse_command(&self, command: &str) -> (r: Result<Command, CommandError>) {
        parse_command_exec(command, false)
    }
}

/// The second interpreter: move and turn commands, and print commands whose
/// text follows the `print-` prefix.
pub struct RoverProcessorV2;

impl RoverProcessor for RoverProcessorV2 {
    open spec fn parse_result(&self, s: Seq<char>) -> Option<Result<CommandModel, CommandError>> {
        parse_command_spec(s, true)
    }

    fn parse_command(&self, command: &str) -> (r: Result<Command, CommandError>) {
        parse_command_exec(command, true)
    }
}

/// The rover: a named vehicle on a square wrap-around map, at a position,
/// facing one of the four headings, driven by textual commands that its
/// interpreter understands.
pub struct Rover<P> {
    pub name: String,
    pub pos_x: i32,
    pub pos_y: i32,
    pub direction: Direction,
    pub processor: Box<P>,
    pub map: Vec<Vec<char>>,
}

/// Where a move ends: the coordinate along the heading changes by the
/// distance — forward or backward — and wraps around the map's dimension.
pub open spec fn move_spec(
    pos_x: int,
    pos_y: int,
    facing: Direction,
    direction: MoveDirection,
    distance: int,
    dim: int,
) -> (int, int) {
    let sign: int = match direction {
        MoveDirection::Forward => 1,
        MoveDirection::Backward => -1,
    };
    match facing {
        Direction::North => (pos_x, (pos_y - distance * sign) % dim),
        Direction::East => ((pos_x + distance * sign) % dim, pos_y),
        Direction::West => ((pos_x - distance * sign) % dim, pos_y),
        Direction::South => (pos_x, (pos_y + distance * sign) % dim),
    }
}

/// Where a turn ends: the heading rotates one quarter left or right.
pub open spec fn turn_spec(facing: Direction, direction: TurnDirection) -> Direction {
    match direction {
        TurnDirection::Left => match facing {
            Direction::North => Direction::West,
            Direction::East => Direction::North,
            Direction::West => Direction::South,
            Direction::South => Direction::East,
        },
        TurnDirection::Right => match facing {
            Direction::North => Direction::East,
            Direction::East => Direction::South,
            Direction::West => Direction::North,
            Direction::South => Direction::West,
        },
    }
}

impl<P> Rover<P> {
    /// Move along or against the current heading; the moved coordinate wraps
    /// around the map's dimension, as the remainder the map size leaves.
    pub fn execute_move(&mut self, distance: i32, direction: MoveDirection)
        requires
            1 <= old(self).map@.len() <= i32::MAX,
        ensures
            final(self).name == old(self).name,
            final(self).map == old(self).map,
            final(self).processor == old(self).processor,
            final(self).direction == old(self).direction,
            (final(self).pos_x as int, final(self).pos_y as int) == move_spec(
                old(self).pos_x as int,
                old(self).pos_y as int,
                old(self).direction,
                direction,
                distance as int,
                old(self).map@.len() as int,
            ),
    {
        let dim: i64 = self.map.len() as i64;
        let sign: i64 = match direction {
            MoveDirection::Forward => 1,
            MoveDirection::Backward => -1,
        };
        let delta: i64 = (distance as i64) * sign;
        let raw: i64 = match self.direction {
            Direction::North => self.pos_y as i64 - delta,
            Direction::East => self.pos_x as i64 + delta,
            Direction::West => self.pos_x as i64 - delta,
            Direction::South => self.pos_y as i64 + delta,
        };
        let wrapped: i64 = match raw.checked_rem_euclid(dim) {
            Some(w) => w,
            None => {
                proof {
                    assert(false);
                }
                0
            },
        };
        match self.direction {
            Direction::North | Direction::South => {
                self.pos_y = wrapped as i32;
            },
            Direction::East | Direction::West => {
                self.pos_x = wrapped as i32;
            },
        }
    }

    /// Rotate the heading one quarter left or right.
    pub fn execute_turn(&mut self, direction: TurnDirection)
        ensures
            final(self).name == old(self).name,
            final(self).map == old(self).map,
            final(self).processor == old(self).processor,
            final(self).pos_x == old(self).pos_x,
            final(self).pos_y == old(self).pos_y,
            final(self).direction == turn_spec(old(self).direction, direction),
    {
        let new_direction = match direction {
            TurnDirection::Left => match self.direction {
                Direction::North => Direction::West,
                Direction::East => Direction::North,
                Direction::West => Direction::South,
                Direction::South => Direction::East,
            },
            TurnDirection::Right => match self.direction {
                Direction::North => Direction::East,
                Direction::East => Direction::South,
                Direction::West => Direction::North,
                Direction::South => Direction::West,
            },
        };
        self.direction = new_direction;
    }

    /// The three map rows around the rover, each clipped to the three cells
    /// around its position.
    pub fn scan(&self) -> (rows: [&[char]; 3])
        requires
            1 <= self.pos_y,
            self.pos_y + 1 < self.map@.len(),
            1 <= self.pos_x,
            self.pos_x + 2 <= self.map@[self.pos_y - 1]@.len(),
            self.pos_x + 2 <= self.map@[self.pos_y as int]@.len(),
            self.pos_x + 2 <= self.map@[self.pos_y + 1]@.len(),
        ensures
            rows[0]@ == self.map@[self.pos_y - 1]@.subrange(self.pos_x - 1, self.pos_x + 2),
            rows[1]@ == self.map@[self.pos_y as int]@.subrange(self.pos_x - 1, self.pos_x + 2),
            rows[2]@ == self.map@[self.pos_y + 1]@.subrange(self.pos_x - 1, self.pos_x + 2),
    {
        let y_start: usize = (self.pos_y - 1) as usize;
        let y_mid: usize = self.pos_y as usize;
        let y_end: usize = (self.pos_y as usize) + 1;
        let x_start: usize = (self.pos_x - 1) as usize;
        let x_end: usize = (self.pos_x as usize) + 2;

        let first = vstd::slice::slice_subrange(self.map[y_start].as_slice(), x_start, x_end);
        let second = vstd::slice::slice_subrange(self.map[y_mid].as_slice(), x_start, x_end);
        let third = vstd::slice::slice_subrange(self.map[y_end].as_slice(), x_start, x_end);

        [first, second, third]
    }
}

impl Command {
    /// Run this command against a rover. A print command changes nothing and
    /// hands the text to print back to the caller, which performs the
    /// output.
    pub fn execute<P>(self, rover: &mut Rover<P>) -> (output: Option<String>)
        requires
            (self@ matches CommandModel::Move { .. }) ==> 1 <= old(rover).map@.len()
                <= i32::MAX,
        ensures
            final(rover).name == old(rover).name,
            final(rover).map == old(rover).map,
            final(rover).processor == old(rover).processor,
            match self@ {
                CommandModel::Move { distance, direction } => {
                    &&& (final(rover).pos_x as int, final(rover).pos_y as int) == move_spec(
                        old(rover).pos_x as int,
                        old(rover).pos_y as int,
                        old(rover).direction,
                        direction,
                        distance,
                        old(rover).map@.len() as int,
                    )
                    &&& final(rover).direction == old(rover).direction
                    &&& output is None
                },
                CommandModel::Turn { direction } => {
                    &&& final(rover).direction == turn_spec(old(rover).direction, direction)
                    &&& final(rover).pos_x == old(rover).pos_x
                    &&& final(rover).pos_y == old(rover).pos_y
                    &&& output is None
                },
                CommandModel::Print { message } => {
                    &&& final(rover).pos_x == old(rover).pos_x
                    &&& final(rover).pos_y == old(rover).pos_y
                    &&& final(rover).direction == old(rover).direction
                    &&& output is Some
                    &&& output->Some_0@ == message
                },
            },
    {
        match self {
            Command::Move { distance, direction } => {
                rover.execute_move(distance, direction);
                None
            },
            Command::Turn { direction } => {
                rover.execute_turn(direction);
                None
            },
            Command::Print { message } => Some(message),
        }
    }
}

impl<P: RoverProcessor> Rover<P> {
    /// Parse one textual command with this rover's interpreter and run it.
    /// A print command leaves the rover unchanged and returns the text to
    /// print; every other command returns nothing.
    pub fn send_command(&mut self, command_string: String) -> (output: Option<String>)
        requires
            (*old(self).processor).parse_result(command_string@) matches Some(Ok(_)),
            ((*old(self).processor).parse_result(command_string@)->Some_0->Ok_0 matches
                CommandModel::Move { .. }) ==> 1 <= old(self).map@.len() <= i32::MAX,
        ensures
            final(self).name == old(self).name,
            final(self).map == old(self).map,
            final(self).processor == old(self).processor,
            match (*old(self).processor).parse_result(command_string@)->Some_0->Ok_0 {
                CommandModel::Move { distance, direction } => {
                    &&& (final(self).pos_x as int, final(self).pos_y as int) == move_spec(
                        old(self).pos_x as int,
                        old(self).pos_y as int,
                        old(self).direction,
                        direction,
                        distance,
                        old(self).map@.len() as int,
                    )
                    &&& final(self).direction == old(self).direction
                    &&& output is None
                },
                CommandModel::Turn { direction } => {
                    &&& final(self).direction == turn_spec(old(self).direction, direction)
                    &&& final(self).pos_x == old(self).pos_x
                    &&& final(self).pos_y == old(self).pos_y
                    &&& output is None
                },
                CommandModel::Print { message } => {
                    &&& final(self).pos_x == old(self).pos_x
                    &&& final(self).pos_y == old(self).pos_y
                    &&& final(self).direction == old(self).direction
                    &&& output is Some
                    &&& output->Some_0@ == message
                },
            },
    {
        let command = match self.processor.parse_command(command_string.as_str()) {
            Ok(c) => c,
            Err(_) => {
                proof {
                    assert(false);
                }
                return None;
            },
        };
        command.execute(self)
    }
}

} // verus!
