//! The signal report of a contact: readability from 1 to 5, strength from 1
//! to 9 and, for some modes, tone from 1 to 9, written as two or three
//! digits.

use vstd::prelude::*;
use vstd::std_specs::convert::TryFromSpecImpl;
use vstd::string::*;

verus! {

/// Why a signal report was refused.
#[derive(Debug)]
#[non_exhaustive]
pub enum RSTError {
    /// The text is longer than three bytes, or has this many characters and
    /// needs more.
    InvalidLength(usize),
    /// This character is no digit.
    InvalidCharacter(char),
    /// This value is less than 1.
    ValueTooSmall(u8),
    /// The first value is greater than the second, the most that is allowed
    /// in its place.
    ValueTooLarge(u8, u8),
}

/// One value of a report, from 1 to 9.
#[derive(Clone, Copy, Debug, PartialEq, Eq)]
struct RSTVal(u8);

/// A value as it is accepted for a place of a report, or the error that it
/// earns.
pub open spec fn checked(value: u8) -> Result<u8, RSTError> {
    if value < 1 {
        Err(RSTError::ValueTooSmall(value))
    } else if value > 9 {
        Err(RSTError::ValueTooLarge(value, 9))
    } else {
        Ok(value)
    }
}

impl RSTVal {
    #[verifier::type_invariant]
    spec fn in_range(self) -> bool {
        1 <= self.0 <= 9
    }

    fn try_from(value: u8) -> (r: Result<RSTVal, RSTError>)
        ensures
            match checked(value) {
                Ok(v) => r matches Ok(val) && val.0 == v,
                Err(e) => r == Err::<RSTVal, RSTError>(e),
            },
    {
        if value < 1 {
            Err(RSTError::ValueTooSmall(value))
        } else if value > 9 {
            Err(RSTError::ValueTooLarge(value, 9))
        } else {
            Ok(RSTVal(value))
        }
    }

    fn get(self) -> (value: u8)
        ensures
            value == self.0,
            1 <= value <= 9,
    {
        proof {
            use_type_invariant(self);
        }
        self.0
    }
}

/// What a report says.
pub struct Report {
    pub readability: u8,
    pub strength: u8,
    pub tone: Option<u8>,
}

/// The report of three values, or the first error among them: readability
/// is held to its limit of 5 before anything else, then each value in turn
/// to the range from 1 to 9.
pub open spec fn report_of(readability: u8, strength: u8, tone: Option<u8>) -> Result<
    Report,
    RSTError,
> {
    if readability > 5 {
        Err(RSTError::ValueTooLarge(readability, 5))
    } else if checked(readability) is Err {
        Err(checked(readability)->Err_0)
    } else if checked(strength) is Err {
        Err(checked(strength)->Err_0)
    } else {
        match tone {
            Some(t) if checked(t) is Err => Err(checked(t)->Err_0),
            _ => Ok(Report { readability, strength, tone }),
        }
    }
}

/// The value of a decimal digit.
pub open spec fn digit_of(c: char) -> Option<u8> {
    if '0' <= c <= '9' {
        Some((c as u32 - 0x30) as u8)
    } else {
        None
    }
}

/// The report that a text of these characters, which takes `bytes` bytes,
/// is read as.
///
/// A text of more than three bytes is refused for its length. Else the
/// characters are taken one by one: the first is the readability and the
/// second the strength, both required, and a third is the tone. Each must be
/// a digit in the range of its place; a fault of a character is found
/// before the lack of the one after it.
pub open spec fn report_in(text: Seq<char>, bytes: nat) -> Result<Report, RSTError> {
    if bytes > 3 {
        Err(RSTError::InvalidLength(bytes as usize))
    } else if text.len() == 0 {
        Err(RSTError::InvalidLength(0))
    } else if digit_of(text[0]) is None {
        Err(RSTError::InvalidCharacter(text[0]))
    } else if digit_of(text[0])->0 > 5 {
        Err(RSTError::ValueTooLarge(digit_of(text[0])->0, 5))
    } else if checked(digit_of(text[0])->0) is Err {
        Err(checked(digit_of(text[0])->0)->Err_0)
    } else if text.len() == 1 {
        Err(RSTError::InvalidLength(1))
    } else if digit_of(text[1]) is None {
        Err(RSTError::InvalidCharacter(text[1]))
    } else if checked(digit_of(text[1])->0) is Err {
        Err(checked(digit_of(text[1])->0)->Err_0)
    } else if text.len() == 2 {
        Ok(
            Report {
                readability: digit_of(text[0])->0,
                strength: digit_of(text[1])->0,
                tone: None,
            },
        )
    } else if digit_of(text[2]) is None {
        Err(RSTError::InvalidCharacter(text[2]))
    } else if checked(digit_of(text[2])->0) is Err {
        Err(checked(digit_of(text[2])->0)->Err_0)
    } else {
        Ok(
            Report {
                readability: digit_of(text[0])->0,
                strength: digit_of(text[1])->0,
                tone: Some(digit_of(text[2])->0),
            },
        )
    }
}

/// The text of a report: its values as digits, one after the other.
pub open spec fn text_of(report: Report) -> Seq<char> {
    let two = seq![(report.readability + 0x30) as char, (report.strength + 0x30) as char];
    match report.tone {
        Some(tone) => two.push((tone + 0x30) as char),
        None => two,
    }
}

fn digit(c: char) -> (r: Option<u8>)
    ensures
        r == digit_of(c),
{
    if '0' <= c && c <= '9' {
        let n: u32 = c as u32;
        Some((n - 0x30) as u8)
    } else {
        None
    }
}

fn digit_text(value: u8) -> (text: &'static str)
    requires
        value <= 9,
    ensures
        text@ == seq![(value + 0x30) as char],
{
    proof {
        reveal_strlit("0");
        reveal_strlit("1");
        reveal_strlit("2");
        reveal_strlit("3");
        reveal_strlit("4");
        reveal_strlit("5");
        reveal_strlit("6");
        reveal_strlit("7");
        reveal_strlit("8");
        reveal_strlit("9");
    }
    let text = match value {
        0 => "0",
        1 => "1",
        2 => "2",
        3 => "3",
        4 => "4",
        5 => "5",
        6 => "6",
        7 => "7",
        8 => "8",
        _ => "9",
    };
    assert(text@ =~= seq![(value + 0x30) as char]);
    text
}

/// A number in decimal digits, without leading zeros.
pub open spec fn decimal_of(n: nat) -> Seq<char>
    decreases n,
{
    if n < 10 {
        seq![(n + 0x30) as char]
    } else {
        decimal_of(n / 10).push((n % 10 + 0x30) as char)
    }
}

/// Writes a number in decimal digits.
pub fn decimal(n: u64) -> (text: String)
    ensures
        text@ == decimal_of(n as nat),
    decreases n,
{
    if n < 10 {
        String::from_str(digit_text(n as u8))
    } else {
        let text = decimal(n / 10).concat(digit_text((n % 10) as u8));
        assert(text@ =~= decimal_of(n as nat));
        text
    }
}

/// `char::to_string`: the string that holds just this character.
#[verifier::external_body]
fn char_text(c: char) -> (text: String)
    ensures
        text@ == seq![c],
{
    c.to_string()
}

impl RSTError {
    /// The text of the error as it is shown to a person.
    pub open spec fn message(self) -> Seq<char> {
        match self {
            RSTError::InvalidLength(n) => "string length `"@ + decimal_of(n as nat)
                + "` was not not between 2 and 3"@,
            RSTError::InvalidCharacter(c) => "character '`"@ + seq![c] + "`' invalid"@,
            RSTError::ValueTooSmall(v) => "value `"@ + decimal_of(v as nat) + "` was less than 1"@,
            RSTError::ValueTooLarge(v, most) => "value `"@ + decimal_of(v as nat)
                + "` was greater than `"@ + decimal_of(most as nat) + "`"@,
        }
    }

    pub fn to_string(&self) -> (text: String)
        ensures
            text@ == self.message(),
    {
        match self {
            RSTError::InvalidLength(n) => String::from_str("string length `").concat(
                decimal(*n as u64).as_str(),
            ).concat("` was not not between 2 and 3"),
            RSTError::InvalidCharacter(c) => String::from_str("character '`").concat(
                char_text(*c).as_str(),
            ).concat("`' invalid"),
            RSTError::ValueTooSmall(v) => String::from_str("value `").concat(
                decimal(*v as u64).as_str(),
            ).concat("` was less than 1"),
            RSTError::ValueTooLarge(v, most) => String::from_str("value `").concat(
                decimal(*v as u64).as_str(),
            ).concat("` was greater than `").concat(decimal(*most as u64).as_str()).concat("`"),
        }
    }
}

/// A signal report.
#[derive(Debug, Clone, Copy, PartialEq, Eq)]
pub struct RST {
    readability: RSTVal,
    strength: RSTVal,
    tone: Option<RSTVal>,
}

impl View for RST {
    type V = Report;

    closed spec fn view(&self) -> Report {
        Report {
            readability: self.readability.0,
            strength: self.strength.0,
            tone: match self.tone {
                Some(tone) => Some(tone.0),
                None => None,
            },
        }
    }
}

impl RST {
    #[verifier::type_invariant]
    spec fn in_range(self) -> bool {
        self.readability.0 <= 5
    }

    /// The report with what `report` says.
    pub closed spec fn of(report: Report) -> RST {
        RST {
            readability: RSTVal(report.readability),
            strength: RSTVal(report.strength),
            tone: match report.tone {
                Some(tone) => Some(RSTVal(tone)),
                None => None,
            },
        }
    }

    /// A report of these values, if each is in the range of its place.
    pub fn new(readability: u8, strength: u8, tone: Option<u8>) -> (r: Result<Self, RSTError>)
        ensures
            match report_of(readability, strength, tone) {
                Ok(report) => r matches Ok(rst) && rst@ == report,
                Err(e) => r == Err::<Self, RSTError>(e),
            },
    {
        if readability > 5 {
            Err(RSTError::ValueTooLarge(readability, 5))
        } else {
            let readability = RSTVal::try_from(readability)?;
            let strength = RSTVal::try_from(strength)?;
            let tone = match tone {
                Some(t) => Some(RSTVal::try_from(t)?),
                None => None,
            };
            Ok(RST { readability, strength, tone })
        }
    }

    /// Readability, from 1 to 5.
    pub fn readability(&self) -> (value: u8)
        ensures
            value == self@.readability,
            1 <= value <= 5,
    {
        proof {
            use_type_invariant(self);
        }
        self.readability.get()
    }

    /// Strength, from 1 to 9.
    pub fn strength(&self) -> (value: u8)
        ensures
            value == self@.strength,
            1 <= value <= 9,
    {
        self.strength.get()
    }

    /// Tone, from 1 to 9, where the report has one.
    pub fn tone(&self) -> (value: Option<u8>)
        ensures
            value == self@.tone,
            value matches Some(tone) ==> 1 <= tone <= 9,
    {
        match self.tone {
            Some(tone) => Some(tone.get()),
            None => None,
        }
    }

    /// The report as text: two digits, or three with a tone.
    pub fn to_string(&self) -> (text: String)
        ensures
            text@ == text_of(self@),
    {
        let two = String::from_str(digit_text(self.readability())).concat(
            digit_text(self.strength()),
        );
        let text = match self.tone() {
            Some(tone) => two.concat(digit_text(tone)),
            None => two,
        };
        assert(text@ =~= text_of(self@));
        text
    }
}

impl<'a> TryFrom<&'a str> for RST {
    type Error = RSTError;

    /// Reads a report of two or three digits.
    fn try_from(value: &'a str) -> (r: Result<RST, RSTError>)
        ensures
            match report_in(value@, value.spec_bytes().len()) {
                Ok(report) => r matches Ok(rst) && rst@ == report,
                Err(e) => r == Err::<RST, RSTError>(e),
            },
    {
        let length: usize = value.as_bytes().len();
        if length > 3 {
            return Err(RSTError::InvalidLength(length));
        }
        let count: usize = value.unicode_len();
        if count == 0 {
            return Err(RSTError::InvalidLength(0));
        }
        let first = value.get_char(0);
        let readability = match digit(first) {
            None => {
                return Err(RSTError::InvalidCharacter(first));
            },
            Some(d) => d,
        };
        if readability > 5 {
            return Err(RSTError::ValueTooLarge(readability, 5));
        }
        let readability = RSTVal::try_from(readability)?;
        if count == 1 {
            return Err(RSTError::InvalidLength(1));
        }
        let second = value.get_char(1);
        let strength = match digit(second) {
            None => {
                return Err(RSTError::InvalidCharacter(second));
            },
            Some(d) => RSTVal::try_from(d)?,
        };
        if count == 2 {
            return Ok(RST { readability, strength, tone: None });
        }
        let third = value.get_char(2);
        let tone = match digit(third) {
            None => {
                return Err(RSTError::InvalidCharacter(third));
            },
            Some(d) => RSTVal::try_from(d)?,
        };
        Ok(RST { readability, strength, tone: Some(tone) })
    }
}

impl<'a> TryFromSpecImpl<&'a str> for RST {
    open spec fn obeys_try_from_spec() -> bool {
        true
    }

    open spec fn try_from_spec(value: &'a str) -> Result<RST, RSTError> {
        match report_in(value@, value.spec_bytes().len()) {
            Ok(report) => Ok(RST::of(report)),
            Err(e) => Err(e),
        }
    }
}

} // verus!
