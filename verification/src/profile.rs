//! Memory quantities and resource-request profiles.

use crate::text::{char_to_digit, decimal, digit_char, digit_value, push_decimal, views};
use vstd::prelude::*;
use vstd::string::*;

verus! {

/// An amount of memory together with the unit it was given in. The unit is
/// kept as written: no amount is ever converted to another unit.
#[derive(Debug, Clone, Copy, PartialEq, Eq, Structural)]
pub enum Memory {
    KB(u16),
    MB(u16),
    GB(u16),
}

/// Why a run of characters is not an amount.
pub enum AmountError {
    Empty,
    InvalidDigit,
    TooLarge,
}

/// Reads a run of digits from left to right. The first character that is no
/// digit, or the first digit that takes the value past sixteen bits, decides
/// the error, whichever comes first.
pub open spec fn parse_digits(s: Seq<char>) -> Result<u16, AmountError>
    decreases s.len(),
{
    if s.len() == 0 {
        Ok(0)
    } else {
        match parse_digits(s.drop_last()) {
            Err(e) => Err(e),
            Ok(v) => match digit_value(s.last()) {
                None => Err(AmountError::InvalidDigit),
                Some(d) => if v * 10 + d > u16::MAX {
                    Err(AmountError::TooLarge)
                } else {
                    Ok((v * 10 + d) as u16)
                },
            },
        }
    }
}

/// The amount that `s` writes: an optional `+`, then at least one digit, the
/// value within sixteen bits.
pub open spec fn parse_amount(s: Seq<char>) -> Result<u16, AmountError> {
    if s.len() == 0 {
        Err(AmountError::Empty)
    } else {
        let digits = if s[0] == '+' {
            s.drop_first()
        } else {
            s
        };
        if digits.len() == 0 {
            Err(AmountError::InvalidDigit)
        } else {
            parse_digits(digits)
        }
    }
}

/// The message for an amount that could not be read.
pub open spec fn amount_message(e: AmountError) -> Seq<char> {
    match e {
        AmountError::Empty => "cannot parse integer from empty string"@,
        AmountError::InvalidDigit => "invalid digit found in string"@,
        AmountError::TooLarge => "number too large to fit in target type"@,
    }
}

/// The lower-case letter of each unit letter, `None` for any other character.
pub open spec fn unit_letter(c: char) -> Option<char> {
    if c == 'k' || c == 'K' {
        Some('k')
    } else if c == 'm' || c == 'M' {
        Some('m')
    } else if c == 'g' || c == 'G' {
        Some('g')
    } else {
        None
    }
}

/// The quantity of `amount` in the unit that the lower-case `letter` names.
pub open spec fn with_unit(letter: char, amount: u16) -> Memory {
    if letter == 'k' {
        Memory::KB(amount)
    } else if letter == 'm' {
        Memory::MB(amount)
    } else {
        Memory::GB(amount)
    }
}

/// What a text means as a quantity: the last character is the unit, all
/// before it is the amount. The unit is looked at first.
pub open spec fn parse_memory(s: Seq<char>) -> Result<Memory, Seq<char>> {
    if s.len() == 0 {
        Err("cannot parse empty string"@)
    } else {
        match unit_letter(s.last()) {
            None => Err("invalid memory unit: "@.push(s.last())),
            Some(letter) => match parse_amount(s.drop_last()) {
                Err(e) => Err(amount_message(e)),
                Ok(amount) => Ok(with_unit(letter, amount)),
            },
        }
    }
}

impl Memory {
    pub open spec fn amount(self) -> u16 {
        match self {
            Memory::KB(n) => n,
            Memory::MB(n) => n,
            Memory::GB(n) => n,
        }
    }

    pub open spec fn letter(self) -> char {
        match self {
            Memory::KB(_) => 'k',
            Memory::MB(_) => 'm',
            Memory::GB(_) => 'g',
        }
    }

    /// The written form: the amount in decimal, then the unit letter.
    pub open spec fn text(self) -> Seq<char> {
        decimal(self.amount() as nat).push(self.letter())
    }

    /// Appends the written form to `out`.
    pub fn write_to(&self, out: &mut String)
        ensures
            final(out)@ == old(out)@ + self.text(),
    {
        let (amount, letter): (u16, char) = match self {
            Memory::KB(n) => (*n, 'k'),
            Memory::MB(n) => (*n, 'm'),
            Memory::GB(n) => (*n, 'g'),
        };
        push_decimal(out, amount);
        out.push(letter);
    }

    /// The written form of the quantity.
    pub fn to_string(&self) -> (r: String)
        ensures
            r@ == self.text(),
    {
        let mut out = String::new();
        self.write_to(&mut out);
        out
    }

    /// Reads a quantity from its written form. The unit letter may be in
    /// either case; on failure the message says what was wrong.
    pub fn from_str(s: &str) -> (r: Result<Memory, String>)
        ensures
            match r {
                Ok(m) => parse_memory(s@) == Ok::<Memory, Seq<char>>(m),
                Err(e) => parse_memory(s@) == Err::<Memory, Seq<char>>(e@),
            },
    {
        let len = s.unicode_len();
        if len == 0 {
            return Err(String::from_str("cannot parse empty string"));
        }
        let unit = s.get_char(len - 1);
        assert(s@.drop_last() == s@.take(len - 1));
        match unit_of(unit) {
            None => {
                let mut message = String::from_str("invalid memory unit: ");
                message.push(unit);
                Err(message)
            },
            Some(u) => match read_amount(s, len - 1) {
                Err(e) => Err(describe(e)),
                Ok(amount) => Ok(
                    match u {
                        Unit::Kilo => Memory::KB(amount),
                        Unit::Mega => Memory::MB(amount),
                        Unit::Giga => Memory::GB(amount),
                    },
                ),
            },
        }
    }
}

/// The three units a quantity can be given in.
pub enum Unit {
    Kilo,
    Mega,
    Giga,
}

impl Unit {
    pub open spec fn letter(self) -> char {
        match self {
            Unit::Kilo => 'k',
            Unit::Mega => 'm',
            Unit::Giga => 'g',
        }
    }
}

/// The unit that a letter names, in either case.
pub fn unit_of(c: char) -> (r: Option<Unit>)
    ensures
        match r {
            Some(u) => unit_letter(c) == Some(u.letter()),
            None => unit_letter(c) is None,
        },
{
    if c == 'k' || c == 'K' {
        Some(Unit::Kilo)
    } else if c == 'm' || c == 'M' {
        Some(Unit::Mega)
    } else if c == 'g' || c == 'G' {
        Some(Unit::Giga)
    } else {
        None
    }
}

/// The message for an amount that could not be read.
pub fn describe(e: AmountError) -> (r: String)
    ensures
        r@ == amount_message(e),
{
    match e {
        AmountError::Empty => String::from_str("cannot parse integer from empty string"),
        AmountError::InvalidDigit => String::from_str("invalid digit found in string"),
        AmountError::TooLarge => String::from_str("number too large to fit in target type"),
    }
}

/// An error met in a prefix of the digits is the error of the whole run.
pub proof fn lemma_digits_error_stays(s: Seq<char>, k: int)
    requires
        0 <= k <= s.len(),
        parse_digits(s.take(k)) is Err,
    ensures
        parse_digits(s) == parse_digits(s.take(k)),
    decreases s.len() - k,
{
    if k == s.len() {
        assert(s.take(k) == s);
    } else {
        assert(s.take(k + 1).drop_last() == s.take(k));
        lemma_digits_error_stays(s, k + 1);
    }
}

/// Reads the amount written by the first `end` characters of `s`.
pub fn read_amount(s: &str, end: usize) -> (r: Result<u16, AmountError>)
    requires
        end <= s@.len(),
    ensures
        r == parse_amount(s@.take(end as int)),
{
    let ghost whole = s@.take(end as int);
    if end == 0 {
        return Err(AmountError::Empty);
    }
    let start: usize = if s.get_char(0) == '+' {
        1
    } else {
        0
    };
    let ghost digits = whole.skip(start as int);
    proof {
        assert(whole[0] == s@[0]);
        if start == 1 {
            assert(whole.drop_first() == digits);
        } else {
            assert(whole == digits);
        }
    }
    if start == end {
        return Err(AmountError::InvalidDigit);
    }
    let mut value: u16 = 0;
    let mut i: usize = start;
    assert(digits.take(0) == Seq::<char>::empty());
    assert(parse_amount(whole) == parse_digits(digits));
    while i < end
        invariant
            start <= i <= end <= s@.len(),
            digits == s@.take(end as int).skip(start as int),
            parse_amount(s@.take(end as int)) == parse_digits(digits),
            parse_digits(digits.take(i - start)) == Ok::<u16, AmountError>(value),
        decreases end - i,
    {
        let c = s.get_char(i);
        proof {
            assert(digits.take(i + 1 - start).drop_last() == digits.take(i - start));
            assert(digits.take(i + 1 - start).last() == c);
        }
        match char_to_digit(c) {
            None => {
                proof {
                    lemma_digits_error_stays(digits, i + 1 - start);
                }
                return Err(AmountError::InvalidDigit);
            },
            Some(d) => {
                if value > 6553 || (value == 6553 && d > 5) {
                    proof {
                        lemma_digits_error_stays(digits, i + 1 - start);
                    }
                    return Err(AmountError::TooLarge);
                }
                value = value * 10 + d;
            },
        }
        i += 1;
    }
    assert(digits.take(end - start) == digits);
    Ok(value)
}

/// A request for resources: every field may be left open.
#[derive(Debug, Clone, PartialEq, Eq)]
pub struct Profile {
    /// Number of cores.
    pub cpu: Option<u8>,
    /// Number of GPUs.
    pub gpu: Option<u8>,
    /// Amount of memory.
    pub mem: Option<Memory>,
    /// Name of the partition.
    pub partition: Option<String>,
    /// Names of the nodes to run on.
    pub nodes: Vec<String>,
    /// The command to run, token by token.
    pub command: Vec<String>,
}

/// What a profile holds, as plain values.
pub struct ProfileView {
    pub cpu: Option<u8>,
    pub gpu: Option<u8>,
    pub mem: Option<Memory>,
    pub partition: Option<Seq<char>>,
    pub nodes: Seq<Seq<char>>,
    pub command: Seq<Seq<char>>,
}

impl View for Profile {
    type V = ProfileView;

    open spec fn view(&self) -> ProfileView {
        ProfileView {
            cpu: self.cpu,
            gpu: self.gpu,
            mem: self.mem,
            partition: match self.partition {
                Some(name) => Some(name@),
                None => None,
            },
            nodes: views(self.nodes@),
            command: views(self.command@),
        }
    }
}

/// The first of the two that is present, `over` before `base`.
pub open spec fn first_present<T>(over: Option<T>, base: Option<T>) -> Option<T> {
    if over is Some {
        over
    } else {
        base
    }
}

/// `over` unless it is empty, then `base`.
pub open spec fn first_nonempty<T>(over: Seq<T>, base: Seq<T>) -> Seq<T> {
    if over.len() > 0 {
        over
    } else {
        base
    }
}

/// `base` with every field that `over` specifies taken from `over`. An empty
/// list in `over` specifies nothing.
pub open spec fn merged(base: ProfileView, over: ProfileView) -> ProfileView {
    ProfileView {
        cpu: first_present(over.cpu, base.cpu),
        gpu: first_present(over.gpu, base.gpu),
        mem: first_present(over.mem, base.mem),
        partition: first_present(over.partition, base.partition),
        nodes: first_nonempty(over.nodes, base.nodes),
        command: first_nonempty(over.command, base.command),
    }
}

impl Profile {
    /// Lays the overrides `other` over this profile, field by field.
    pub fn overwrite(self, other: Profile) -> (r: Profile)
        ensures
            r@ == merged(self@, other@),
    {
        Profile {
            cpu: match other.cpu {
                Some(n) => Some(n),
                None => self.cpu,
            },
            gpu: match other.gpu {
                Some(n) => Some(n),
                None => self.gpu,
            },
            mem: match other.mem {
                Some(m) => Some(m),
                None => self.mem,
            },
            partition: match other.partition {
                Some(name) => Some(name),
                None => self.partition,
            },
            nodes: if other.nodes.len() > 0 {
                other.nodes
            } else {
                self.nodes
            },
            command: if other.command.len() > 0 {
                other.command
            } else {
                self.command
            },
        }
    }
}

/// A numeral written plainly: digits only, and no leading zero but in zero
/// itself.
pub open spec fn is_plain_numeral(s: Seq<char>) -> bool {
    &&& s.len() > 0
    &&& forall|i: int| 0 <= i < s.len() ==> digit_value(#[trigger] s[i]) is Some
    &&& s.len() > 1 ==> s[0] != '0'
}

/// The numeral of an amount is plain, and reading it gives the amount back.
pub proof fn lemma_decimal_reads_back(n: u16)
    ensures
        is_plain_numeral(decimal(n as nat)),
        parse_digits(decimal(n as nat)) == Ok::<u16, AmountError>(n),
        n > 0 ==> decimal(n as nat)[0] != '0',
    decreases n,
{
    let s = decimal(n as nat);
    if n < 10 {
        assert(s.drop_last() == Seq::<char>::empty());
        assert(parse_digits(s.drop_last()) == Ok::<u16, AmountError>(0));
    } else {
        lemma_decimal_reads_back(n / 10);
        assert(s.drop_last() == decimal((n / 10) as nat));
        assert(s[0] == decimal((n / 10) as nat)[0]);
    }
}

/// A plain numeral that can be read is the numeral of its value.
pub proof fn lemma_plain_numeral_is_decimal(s: Seq<char>)
    requires
        is_plain_numeral(s),
        parse_digits(s) is Ok,
    ensures
        decimal(parse_digits(s)->Ok_0 as nat) == s,
        s[0] != '0' ==> parse_digits(s)->Ok_0 > 0,
    decreases s.len(),
{
    let head = s.drop_last();
    if s.len() == 1 {
        assert(head == Seq::<char>::empty());
        assert(digit_value(s[0]) is Some);
        assert(decimal(parse_digits(s)->Ok_0 as nat) =~= s);
    } else {
        assert(head[0] == s[0]);
        assert forall|i: int| 0 <= i < head.len() implies digit_value(#[trigger] head[i]) is Some by {
            assert(head[i] == s[i]);
        }
        lemma_plain_numeral_is_decimal(head);
        assert(digit_value(s[s.len() - 1]) is Some);
        assert(decimal(parse_digits(s)->Ok_0 as nat) =~= s);
    }
}

/// Reading the written form of a quantity gives the quantity back.
pub proof fn lemma_parse_of_text(m: Memory)
    ensures
        parse_memory(m.text()) == Ok::<Memory, Seq<char>>(m),
{
    lemma_decimal_reads_back(m.amount());
    assert(m.text().drop_last() == decimal(m.amount() as nat));
}

/// Round trip of a written quantity: a text that reads as a quantity, its
/// amount written plainly, is the written form of that quantity but for the
/// case of the unit letter.
pub proof fn lemma_text_of_parse(s: Seq<char>)
    requires
        parse_memory(s) is Ok,
        is_plain_numeral(s.drop_last()),
    ensures
        parse_memory(s)->Ok_0.text() == s.drop_last().push(unit_letter(s.last())->Some_0),
{
    let numeral = s.drop_last();
    let plus = '+';
    assert(digit_value(numeral[0]) is Some);
    assert(numeral[0] != plus);
    lemma_plain_numeral_is_decimal(numeral);
}

/// Every amount with every unit letter has a text that round-trips: the
/// numeral of the amount followed by the letter.
pub proof fn lemma_every_quantity_has_a_text(amount: u16, unit: char)
    requires
        unit_letter(unit) is Some,
    ensures
        parse_memory(decimal(amount as nat).push(unit)) == Ok::<Memory, Seq<char>>(
            with_unit(unit_letter(unit)->Some_0, amount),
        ),
        is_plain_numeral(decimal(amount as nat).push(unit).drop_last()),
{
    lemma_decimal_reads_back(amount);
    assert(decimal(amount as nat).push(unit).drop_last() == decimal(amount as nat));
    assert(digit_value(decimal(amount as nat)[0]) is Some);
}

/// A scalar field of the result is the override's where that is present, and
/// the base's where it is not.
pub proof fn lemma_overwrite_scalars(base: ProfileView, over: ProfileView)
    ensures
        over.cpu is Some ==> merged(base, over).cpu == over.cpu,
        over.cpu is None ==> merged(base, over).cpu == base.cpu,
        over.gpu is Some ==> merged(base, over).gpu == over.gpu,
        over.gpu is None ==> merged(base, over).gpu == base.gpu,
        over.mem is Some ==> merged(base, over).mem == over.mem,
        over.mem is None ==> merged(base, over).mem == base.mem,
        over.partition is Some ==> merged(base, over).partition == over.partition,
        over.partition is None ==> merged(base, over).partition == base.partition,
{
}

/// A list field of the result is the base's where the override's is empty,
/// and the override's where it is not.
pub proof fn lemma_overwrite_lists(base: ProfileView, over: ProfileView)
    ensures
        over.nodes.len() == 0 ==> merged(base, over).nodes == base.nodes,
        over.nodes.len() > 0 ==> merged(base, over).nodes == over.nodes,
        over.command.len() == 0 ==> merged(base, over).command == base.command,
        over.command.len() > 0 ==> merged(base, over).command == over.command,
{
}

} // verus!
