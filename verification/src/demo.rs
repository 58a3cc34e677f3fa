//! A synthetic source for viewers: its options, its test pattern and the checks on what comes
//! back.

use crate::graph::hex_digit;
use crate::local::Scope;
use crate::text::{characters, collect, decimal, same_text};
use vstd::prelude::*;

verus! {

/// Which adapter publishes frames.
#[derive(Debug, Clone, Copy, PartialEq, Eq, Structural)]
pub enum AdapterSelection {
    Default,
    Warp,
    Luid(u64),
}

/// What the source was asked for.
#[derive(Debug, PartialEq, Eq)]
pub struct Options {
    pub endpoint: String,
    pub scope: Scope,
    /// Captures a window of its own, rather than the test pattern.
    pub window: bool,
    pub adapter: AdapterSelection,
    pub width: u32,
    pub height: u32,
    /// Alternates with a wider size after so many milliseconds.
    pub resize_every: Option<u64>,
    pub fps: u32,
    pub seconds: u64,
    /// Ends once that many viewers have disconnected; zero never does.
    pub clients: u32,
}

/// Why a text stands for no number.
#[derive(Debug, Clone, Copy, PartialEq, Eq, Structural)]
pub enum NumberError {
    Empty,
    InvalidDigit,
    TooLarge,
}

/// Why arguments were not understood.
#[derive(Debug, PartialEq, Eq)]
pub enum OptionError {
    NeedsValue(String),
    UnknownSource(String),
    Number(NumberError),
    Size,
    UnknownArgument(String),
    NoEndpoint,
}

/// An error by its kind and the argument that it names.
pub enum OptionFault {
    NeedsValue(Seq<char>),
    UnknownSource(Seq<char>),
    Number(NumberError),
    Size,
    UnknownArgument(Seq<char>),
    NoEndpoint,
}

impl View for OptionError {
    type V = OptionFault;

    open spec fn view(&self) -> OptionFault {
        match self {
            OptionError::NeedsValue(arg) => OptionFault::NeedsValue(arg@),
            OptionError::UnknownSource(name) => OptionFault::UnknownSource(name@),
            OptionError::Number(why) => OptionFault::Number(*why),
            OptionError::Size => OptionFault::Size,
            OptionError::UnknownArgument(arg) => OptionFault::UnknownArgument(arg@),
            OptionError::NoEndpoint => OptionFault::NoEndpoint,
        }
    }
}

impl OptionError {
    /// The error in words.
    pub fn message(&self) -> (result: String)
        ensures
            result@ == (match *self {
                OptionError::NeedsValue(arg) => arg@ + " needs a value"@,
                OptionError::UnknownSource(name) => "unknown source "@ + name@,
                OptionError::Number(NumberError::Empty) => "cannot parse integer from empty string"@,
                OptionError::Number(NumberError::InvalidDigit) => "invalid digit found in string"@,
                OptionError::Number(
                    NumberError::TooLarge,
                ) => "number too large to fit in target type"@,
                OptionError::Size => "--size WxH"@,
                OptionError::UnknownArgument(arg) => "unknown argument "@ + arg@,
                OptionError::NoEndpoint => "--endpoint NAME is required"@,
            }),
    {
        match self {
            OptionError::NeedsValue(arg) => arg.clone().concat(" needs a value"),
            OptionError::UnknownSource(name) => String::from_str("unknown source ").concat(
                name.as_str(),
            ),
            OptionError::Number(why) => match why {
                NumberError::Empty => String::from_str("cannot parse integer from empty string"),
                NumberError::InvalidDigit => String::from_str("invalid digit found in string"),
                NumberError::TooLarge => String::from_str("number too large to fit in target type"),
            },
            OptionError::Size => String::from_str("--size WxH"),
            OptionError::UnknownArgument(arg) => String::from_str("unknown argument ").concat(
                arg.as_str(),
            ),
            OptionError::NoEndpoint => String::from_str("--endpoint NAME is required"),
        }
    }
}

/// The value of a digit in a radix of up to 16.
pub open spec fn digit(c: char) -> int {
    if '0' <= c <= '9' {
        c as int - '0' as int
    } else if 'a' <= c <= 'f' {
        c as int - 'a' as int + 10
    } else if 'A' <= c <= 'F' {
        c as int - 'A' as int + 10
    } else {
        16
    }
}

/// The number that digits stand for.
pub open spec fn value_of(digits: Seq<char>, radix: int) -> int
    decreases digits.len(),
{
    if digits.len() == 0 {
        0
    } else {
        value_of(digits.drop_last(), radix) * radix + digit(digits.last())
    }
}

/// A text without one plus sign before it.
pub open spec fn unsigned(text: Seq<char>) -> Seq<char> {
    if text.len() > 0 && text[0] == '+' {
        text.drop_first()
    } else {
        text
    }
}

/// Whether every character is a digit.
pub open spec fn all_digits(digits: Seq<char>, radix: int) -> bool {
    forall|i: int| 0 <= i < digits.len() ==> digit(#[trigger] digits[i]) < radix
}

/// The number that digits stand for, read from the left: the first digit that is none, or with
/// which the number exceeds the bound, says why there is none.
pub open spec fn read_digits(digits: Seq<char>, radix: int, max: int) -> Result<int, NumberError>
    decreases digits.len(),
{
    if digits.len() == 0 {
        Ok(0)
    } else {
        match read_digits(digits.drop_last(), radix, max) {
            Err(why) => Err(why),
            Ok(value) => {
                let next = value * radix + digit(digits.last());
                if digit(digits.last()) >= radix {
                    Err(NumberError::InvalidDigit)
                } else if next > max {
                    Err(NumberError::TooLarge)
                } else {
                    Ok(next)
                }
            },
        }
    }
}

/// The number that a text stands for: digits, after at most one plus sign, up to a bound.
pub open spec fn number_of(text: Seq<char>, radix: int, max: int) -> Result<int, NumberError> {
    if text.len() == 0 {
        Err(NumberError::Empty)
    } else if unsigned(text).len() == 0 {
        Err(NumberError::InvalidDigit)
    } else {
        read_digits(unsigned(text), radix, max)
    }
}

/// A text stands for a number exactly where it has digits and nothing else, after at most one
/// plus sign, and the number is what they stand for together, up to the bound.
pub proof fn numbers_are_their_digits(text: Seq<char>, radix: int, max: int)
    requires
        2 <= radix <= 16,
        max >= 0,
    ensures
        ({
            let digits = unsigned(text);
            let value = value_of(digits, radix);
            if digits.len() > 0 && all_digits(digits, radix) && value <= max {
                number_of(text, radix, max) == Ok::<int, NumberError>(value)
            } else {
                number_of(text, radix, max) is Err
            }
        }),
{
    lemma_read_digits(unsigned(text), radix, max);
}

proof fn lemma_read_digits(digits: Seq<char>, radix: int, max: int)
    requires
        2 <= radix <= 16,
        max >= 0,
    ensures
        value_of(digits, radix) >= 0,
        if all_digits(digits, radix) && value_of(digits, radix) <= max {
            read_digits(digits, radix, max) == Ok::<int, NumberError>(value_of(digits, radix))
        } else {
            read_digits(digits, radix, max) is Err
        },
    decreases digits.len(),
{
    if digits.len() > 0 {
        let before = digits.drop_last();
        lemma_read_digits(before, radix, max);
        let value = value_of(before, radix);
        assert(value * radix >= value) by (nonlinear_arith)
            requires
                value >= 0,
                radix >= 1,
        ;
        if all_digits(digits, radix) {
            assert forall|i: int| 0 <= i < before.len() implies digit(#[trigger] before[i])
                < radix by {
                assert(before[i] == digits[i]);
            }
            assert(digit(digits[digits.len() - 1]) < radix);
        } else if all_digits(before, radix) {
            let i = choose|i: int| 0 <= i < digits.len() && digit(#[trigger] digits[i]) >= radix;
            if i < before.len() {
                assert(before[i] == digits[i]);
            }
        }
    }
}

/// Once something is wrong with digits, further ones do not change what.
proof fn lemma_read_ends(digits: Seq<char>, radix: int, max: int, n: int)
    requires
        0 <= n <= digits.len(),
        read_digits(digits.take(n), radix, max) is Err,
    ensures
        read_digits(digits, radix, max) == read_digits(digits.take(n), radix, max),
    decreases digits.len() - n,
{
    if n < digits.len() {
        assert(digits.take(n + 1).drop_last() =~= digits.take(n));
        lemma_read_ends(digits, radix, max, n + 1);
    } else {
        assert(digits.take(n) =~= digits);
    }
}

/// The number that a text stands for, or why it stands for none.
pub fn number(text: &str, radix: u64, max: u64) -> (result: Result<u64, NumberError>)
    requires
        2 <= radix <= 16,
    ensures
        match number_of(text@, radix as int, max as int) {
            Ok(value) => result matches Ok(number) && number == value,
            Err(why) => result == Err::<u64, NumberError>(why),
        },
{
    let chars = characters(text);
    if chars.len() == 0 {
        return Err(NumberError::Empty);
    }
    let start: usize = if chars[0] == '+' {
        1
    } else {
        0
    };
    let ghost digits = unsigned(text@);
    assert(digits =~= chars@.skip(start as int));
    if chars.len() == start {
        return Err(NumberError::InvalidDigit);
    }
    let mut value: u128 = 0;
    let mut i: usize = start;
    while i < chars.len()
        invariant
            2 <= radix <= 16,
            start <= i <= chars@.len(),
            text@.len() > 0,
            digits == unsigned(text@),
            digits.len() > 0,
            digits == chars@.skip(start as int),
            value <= max,
            read_digits(digits.take(i - start), radix as int, max as int) == Ok::<int, NumberError>(
                value as int,
            ),
        decreases chars@.len() - i,
    {
        let c: char = chars[i];
        let d: u128 = if '0' <= c && c <= '9' {
            (c as u32 - '0' as u32) as u128
        } else if 'a' <= c && c <= 'f' {
            (c as u32 - 'a' as u32 + 10) as u128
        } else if 'A' <= c && c <= 'F' {
            (c as u32 - 'A' as u32 + 10) as u128
        } else {
            16
        };
        let ghost n = i - start + 1;
        proof {
            assert(d == digit(digits[i - start]));
            assert(digits.take(n).drop_last() =~= digits.take(i - start));
            assert(digits.take(n).last() == digits[i - start]);
            assert(value * radix <= max * 16) by (nonlinear_arith)
                requires
                    value <= max,
                    radix <= 16,
            ;
        }
        if d >= radix as u128 {
            proof {
                lemma_read_ends(digits, radix as int, max as int, n);
            }
            return Err(NumberError::InvalidDigit);
        }
        let next: u128 = value * radix as u128 + d;
        if next > max as u128 {
            proof {
                lemma_read_ends(digits, radix as int, max as int, n);
            }
            return Err(NumberError::TooLarge);
        }
        value = next;
        i = i + 1;
    }
    assert(digits.take(i - start) =~= digits);
    Ok(value as u64)
}

/// Options by their values.
pub struct OptionsModel {
    pub endpoint: Seq<char>,
    pub scope: Scope,
    pub window: bool,
    pub adapter: AdapterSelection,
    pub width: u32,
    pub height: u32,
    pub resize_every: Option<u64>,
    pub fps: u32,
    pub seconds: u64,
    pub clients: u32,
}

impl View for Options {
    type V = OptionsModel;

    open spec fn view(&self) -> OptionsModel {
        OptionsModel {
            endpoint: self.endpoint@,
            scope: self.scope,
            window: self.window,
            adapter: self.adapter,
            width: self.width,
            height: self.height,
            resize_every: self.resize_every,
            fps: self.fps,
            seconds: self.seconds,
            clients: self.clients,
        }
    }
}

/// What the source does unless it is asked for something else.
pub open spec fn initial_options() -> OptionsModel {
    OptionsModel {
        endpoint: Seq::empty(),
        scope: Scope::User,
        window: false,
        adapter: AdapterSelection::Default,
        width: 480,
        height: 270,
        resize_every: None,
        fps: 60,
        seconds: 120,
        clients: 0,
    }
}

/// Whether an argument is followed by a value.
pub open spec fn takes_value(arg: Seq<char>) -> bool {
    ||| arg == "--endpoint"@
    ||| arg == "--source"@
    ||| arg == "--adapter"@
    ||| arg == "--size"@
    ||| arg == "--resize-every-ms"@
    ||| arg == "--fps"@
    ||| arg == "--seconds"@
    ||| arg == "--clients"@
}

/// A text without the hexadecimal marks before it.
pub open spec fn unmarked(text: Seq<char>) -> Seq<char>
    decreases text.len(),
{
    if text.len() >= 2 && text[0] == '0' && text[1] == 'x' {
        unmarked(text.skip(2))
    } else {
        text
    }
}

/// How many characters stand before the first `x`, or in all.
pub open spec fn before_x(text: Seq<char>) -> nat
    decreases text.len(),
{
    if text.len() == 0 || text[0] == 'x' {
        0
    } else {
        1 + before_x(text.drop_first())
    }
}

proof fn lemma_before_x(text: Seq<char>, n: nat)
    requires
        n <= text.len(),
        forall|i: int| 0 <= i < n ==> text[i] != 'x',
        n == text.len() || text[n as int] == 'x',
    ensures
        before_x(text) == n,
    decreases n,
{
    if n > 0 {
        let rest = text.drop_first();
        assert forall|i: int| 0 <= i < n - 1 implies rest[i] != 'x' by {
            assert(rest[i] == text[i + 1]);
        }
        lemma_before_x(rest, (n - 1) as nat);
    }
}

/// The adapter that a text names.
pub open spec fn adapter_of(text: Seq<char>) -> Result<AdapterSelection, NumberError> {
    if text == "default"@ {
        Ok(AdapterSelection::Default)
    } else if text == "warp"@ {
        Ok(AdapterSelection::Warp)
    } else {
        match number_of(unmarked(text), 16, u64::MAX as int) {
            Ok(luid) => Ok(AdapterSelection::Luid(luid as u64)),
            Err(why) => Err(why),
        }
    }
}

/// What an argument and its value change.
pub open spec fn with_value(options: OptionsModel, arg: Seq<char>, value: Seq<char>) -> Result<
    OptionsModel,
    OptionFault,
> {
    if arg == "--endpoint"@ {
        Ok(OptionsModel { endpoint: value, ..options })
    } else if arg == "--source"@ {
        if value == "synthetic"@ {
            Ok(OptionsModel { window: false, ..options })
        } else if value == "window"@ {
            Ok(OptionsModel { window: true, ..options })
        } else {
            Err(OptionFault::UnknownSource(value))
        }
    } else if arg == "--adapter"@ {
        match adapter_of(value) {
            Ok(adapter) => Ok(OptionsModel { adapter, ..options }),
            Err(why) => Err(OptionFault::Number(why)),
        }
    } else if arg == "--size"@ {
        let n = before_x(value) as int;
        if n == value.len() {
            Err(OptionFault::Size)
        } else {
            match (
                number_of(value.take(n), 10, u32::MAX as int),
                number_of(value.skip(n + 1), 10, u32::MAX as int),
            ) {
                (Err(why), _) => Err(OptionFault::Number(why)),
                (_, Err(why)) => Err(OptionFault::Number(why)),
                (Ok(width), Ok(height)) => Ok(
                    OptionsModel { width: width as u32, height: height as u32, ..options },
                ),
            }
        }
    } else if arg == "--resize-every-ms"@ {
        match number_of(value, 10, u64::MAX as int) {
            Ok(every) => Ok(OptionsModel { resize_every: Some(every as u64), ..options }),
            Err(why) => Err(OptionFault::Number(why)),
        }
    } else if arg == "--fps"@ {
        match number_of(value, 10, u32::MAX as int) {
            Ok(fps) => Ok(
                OptionsModel {
                    fps: if fps < 1 {
                        1
                    } else {
                        fps as u32
                    },
                    ..options
                },
            ),
            Err(why) => Err(OptionFault::Number(why)),
        }
    } else if arg == "--seconds"@ {
        match number_of(value, 10, u64::MAX as int) {
            Ok(seconds) => Ok(OptionsModel { seconds: seconds as u64, ..options }),
            Err(why) => Err(OptionFault::Number(why)),
        }
    } else {
        match number_of(value, 10, u32::MAX as int) {
            Ok(clients) => Ok(OptionsModel { clients: clients as u32, ..options }),
            Err(why) => Err(OptionFault::Number(why)),
        }
    }
}

/// What arguments ask for, from the first to the last.
pub open spec fn taken(args: Seq<Seq<char>>, options: OptionsModel) -> Result<
    OptionsModel,
    OptionFault,
>
    decreases args.len(),
{
    if args.len() == 0 {
        Ok(options)
    } else if args[0] == "--session-scope"@ {
        taken(args.skip(1), OptionsModel { scope: Scope::Session, ..options })
    } else if !takes_value(args[0]) {
        Err(OptionFault::UnknownArgument(args[0]))
    } else if args.len() == 1 {
        Err(OptionFault::NeedsValue(args[0]))
    } else {
        match with_value(options, args[0], args[1]) {
            Ok(next) => taken(args.skip(2), next),
            Err(fault) => Err(fault),
        }
    }
}

/// What arguments ask for: an endpoint must be among it.
pub open spec fn asked(args: Seq<Seq<char>>) -> Result<OptionsModel, OptionFault> {
    match taken(args, initial_options()) {
        Ok(options) => if options.endpoint.len() == 0 {
            Err(OptionFault::NoEndpoint)
        } else {
            Ok(options)
        },
        Err(fault) => Err(fault),
    }
}

/// The characters of arguments.
pub open spec fn texts(args: Seq<String>) -> Seq<Seq<char>> {
    Seq::new(args.len(), |i: int| args[i]@)
}

/// The adapter that a text names.
fn adapter(text: &str) -> (result: Result<AdapterSelection, NumberError>)
    ensures
        result == adapter_of(text@),
{
    if same_text(text, "default") {
        return Ok(AdapterSelection::Default);
    }
    if same_text(text, "warp") {
        return Ok(AdapterSelection::Warp);
    }
    let chars = characters(text);
    let mut start: usize = 0;
    assert(chars@.skip(0) =~= chars@);
    while chars.len() - start >= 2 && chars[start] == '0' && chars[start + 1] == 'x'
        invariant
            start <= chars@.len(),
            chars@ == text@,
            unmarked(text@) == unmarked(chars@.skip(start as int)),
        decreases chars@.len() - start,
    {
        assert(chars@.skip(start as int).skip(2) =~= chars@.skip(start + 2));
        start = start + 2;
    }
    let rest = collect(&chars, start, chars.len());
    assert(rest@ =~= chars@.skip(start as int));
    match number(rest.as_str(), 16, u64::MAX) {
        Ok(luid) => Ok(AdapterSelection::Luid(luid)),
        Err(why) => Err(why),
    }
}

/// The width and the height of a text.
fn size(text: &str) -> (result: Result<(u32, u32), OptionError>)
    ensures
        ({
            let n = before_x(text@) as int;
            let width = number_of(text@.take(n), 10, u32::MAX as int);
            let height = number_of(text@.skip(n + 1), 10, u32::MAX as int);
            match result {
                Ok((w, h)) => {
                    &&& n < text@.len()
                    &&& width == Ok::<int, NumberError>(w as int)
                    &&& height == Ok::<int, NumberError>(h as int)
                },
                Err(error) => if n == text@.len() {
                    error@ == OptionFault::Size
                } else {
                    error@ == OptionFault::Number(
                        match width {
                            Err(why) => why,
                            Ok(_) => height->Err_0,
                        },
                    ) && (width is Err || height is Err)
                },
            }
        }),
{
    let chars = characters(text);
    let mut n: usize = 0;
    while n < chars.len() && chars[n] != 'x'
        invariant
            n <= chars@.len(),
            forall|i: int| 0 <= i < n ==> chars@[i] != 'x',
        decreases chars@.len() - n,
    {
        n = n + 1;
    }
    proof {
        lemma_before_x(chars@, n as nat);
    }
    if n == chars.len() {
        return Err(OptionError::Size);
    }
    let first = collect(&chars, 0, n);
    let second = collect(&chars, n + 1, chars.len());
    assert(first@ =~= text@.take(n as int));
    assert(second@ =~= text@.skip(n + 1));
    match (number(first.as_str(), 10, u32::MAX as u64), number(second.as_str(), 10,
        u32::MAX as u64)) {
        (Err(why), _) => Err(OptionError::Number(why)),
        (_, Err(why)) => Err(OptionError::Number(why)),
        (Ok(width), Ok(height)) => Ok((width as u32, height as u32)),
    }
}

impl Options {
    /// Changes what an argument and its value ask for.
    fn take_value(&mut self, arg: &str, value: &str) -> (result: Result<(), OptionError>)
        requires
            takes_value(arg@),
        ensures
            match with_value(old(self)@, arg@, value@) {
                Ok(next) => result is Ok && final(self)@ == next,
                Err(fault) => result matches Err(error) && error@ == fault,
            },
    {
        if same_text(arg, "--endpoint") {
            self.endpoint = String::from_str(value);
            Ok(())
        } else if same_text(arg, "--source") {
            if same_text(value, "synthetic") {
                self.window = false;
                Ok(())
            } else if same_text(value, "window") {
                self.window = true;
                Ok(())
            } else {
                Err(OptionError::UnknownSource(String::from_str(value)))
            }
        } else if same_text(arg, "--adapter") {
            match adapter(value) {
                Ok(adapter) => {
                    self.adapter = adapter;
                    Ok(())
                },
                Err(why) => Err(OptionError::Number(why)),
            }
        } else if same_text(arg, "--size") {
            match size(value) {
                Ok((width, height)) => {
                    self.width = width;
                    self.height = height;
                    Ok(())
                },
                Err(error) => Err(error),
            }
        } else if same_text(arg, "--resize-every-ms") {
            match number(value, 10, u64::MAX) {
                Ok(every) => {
                    self.resize_every = Some(every);
                    Ok(())
                },
                Err(why) => Err(OptionError::Number(why)),
            }
        } else if same_text(arg, "--fps") {
            match number(value, 10, u32::MAX as u64) {
                Ok(fps) => {
                    self.fps = if fps < 1 {
                        1
                    } else {
                        fps as u32
                    };
                    Ok(())
                },
                Err(why) => Err(OptionError::Number(why)),
            }
        } else if same_text(arg, "--seconds") {
            match number(value, 10, u64::MAX) {
                Ok(seconds) => {
                    self.seconds = seconds;
                    Ok(())
                },
                Err(why) => Err(OptionError::Number(why)),
            }
        } else {
            match number(value, 10, u32::MAX as u64) {
                Ok(clients) => {
                    self.clients = clients as u32;
                    Ok(())
                },
                Err(why) => Err(OptionError::Number(why)),
            }
        }
    }

    /// What arguments ask for.
    pub fn parse(args: &Vec<String>) -> (result: Result<Options, OptionError>)
        ensures
            match asked(texts(args@)) {
                Ok(options) => result matches Ok(parsed) && parsed@ == options,
                Err(fault) => result matches Err(error) && error@ == fault,
            },
    {
        let mut options = Options {
            endpoint: String::new(),
            scope: Scope::User,
            window: false,
            adapter: AdapterSelection::Default,
            width: 480,
            height: 270,
            resize_every: None,
            fps: 60,
            seconds: 120,
            clients: 0,
        };
        assert(options@.endpoint =~= Seq::empty());
        let ghost all = texts(args@);
        let mut i: usize = 0;
        assert(all.skip(0) =~= all);
        while i < args.len()
            invariant
                i <= args@.len(),
                all == texts(args@),
                taken(all, initial_options()) == taken(all.skip(i as int), options@),
            decreases args@.len() - i,
        {
            let ghost rest = all.skip(i as int);
            assert(rest[0] == args@[i as int]@);
            let arg: &str = args[i].as_str();
            if same_text(arg, "--session-scope") {
                options.scope = Scope::Session;
                assert(rest.skip(1) =~= all.skip(i + 1));
                i = i + 1;
            } else {
                let known = same_text(arg, "--endpoint") || same_text(arg, "--source")
                    || same_text(arg, "--adapter") || same_text(arg, "--size") || same_text(
                    arg,
                    "--resize-every-ms",
                ) || same_text(arg, "--fps") || same_text(arg, "--seconds") || same_text(
                    arg,
                    "--clients",
                );
                if !known {
                    return Err(OptionError::UnknownArgument(String::from_str(arg)));
                }
                if i + 1 == args.len() {
                    return Err(OptionError::NeedsValue(String::from_str(arg)));
                }
                assert(rest[1] == args@[i + 1]@);
                if let Err(error) = options.take_value(arg, args[i + 1].as_str()) {
                    return Err(error);
                }
                assert(rest.skip(2) =~= all.skip(i + 2));
                i = i + 2;
            }
        }
        if options.endpoint.as_str().is_empty() {
            return Err(OptionError::NoEndpoint);
        }
        Ok(options)
    }

    /// The width of the next frame after so many milliseconds: it alternates with a wider one.
    pub open spec fn width_at(self, elapsed_ms: int) -> int {
        match self.resize_every {
            Some(every) => {
                let step = if every < 1 {
                    1
                } else {
                    every as int
                };
                if elapsed_ms / step % 2 == 1 {
                    self.width * 3 / 2
                } else {
                    self.width as int
                }
            },
            None => self.width as int,
        }
    }

    /// The size of the next frame after so many milliseconds.
    pub fn size_at(&self, elapsed_ms: u128) -> (result: (u32, u32))
        requires
            self.width * 3 / 2 <= u32::MAX,
        ensures
            result.0 == self.width_at(elapsed_ms as int),
            result.1 == self.height,
    {
        let wide: bool = match self.resize_every {
            Some(every) => {
                let step: u128 = if every < 1 {
                    1
                } else {
                    every as u128
                };
                elapsed_ms / step % 2 == 1
            },
            None => false,
        };
        if wide {
            ((self.width as u64 * 3 / 2) as u32, self.height)
        } else {
            (self.width, self.height)
        }
    }
}

/// Nanoseconds in a second.
pub const SECOND: u128 = 1_000_000_000;

/// Nanoseconds in a millisecond.
pub const MILLISECOND: u128 = 1_000_000;

/// What the source does next.
#[derive(Debug, Clone, Copy, PartialEq, Eq, Structural)]
pub enum SourceStep {
    /// The time is up, or enough viewers have come and gone.
    End,
    /// A frame of this size is produced, so long after the start.
    Tick { width: u32, height: u32, elapsed: u128 },
}

/// What the source does after a frame was produced.
#[derive(Debug, Clone, Copy, PartialEq, Eq, Structural)]
pub enum SourcePace {
    /// It sleeps so long, until the next frame is due.
    Sleep { next: u128, wait: u128 },
    /// The next frame is overdue: frames are counted from now on.
    GoOn { next: u128 },
}

impl Options {
    /// Whether the source ends at `now`, with that many viewers gone.
    pub open spec fn ends_at(self, start: u128, now: u128, done: u32) -> bool {
        now >= start + self.seconds * SECOND || (self.clients != 0 && done >= self.clients)
    }
}

/// What a source that began at `start` does at `now`, after that many viewers have
/// disconnected.
pub fn source_step(options: &Options, start: u128, now: u128, done: u32) -> (result: SourceStep)
    requires
        start <= now,
        options.width * 3 / 2 <= u32::MAX,
    ensures
        match result {
            SourceStep::End => options.ends_at(start, now, done),
            SourceStep::Tick { width, height, elapsed } => {
                &&& !options.ends_at(start, now, done)
                &&& elapsed == now - start
                &&& width == options.width_at(elapsed as int / MILLISECOND as int)
                &&& height == options.height
            },
        },
{
    let elapsed: u128 = now - start;
    if elapsed >= options.seconds as u128 * SECOND {
        return SourceStep::End;
    }
    if options.clients != 0 && done >= options.clients {
        return SourceStep::End;
    }
    let (width, height) = options.size_at(elapsed / MILLISECOND);
    SourceStep::Tick { width, height, elapsed }
}

/// How a source goes on at `now`, after a frame that was due at `due`: frames come at an even
/// pace, and a source that fell behind does not catch up.
pub fn source_pace(options: &Options, due: u128, now: u128) -> (result: SourcePace)
    requires
        options.fps > 0,
        due + SECOND <= u128::MAX,
    ensures
        result == ({
            let next = due + SECOND as int / options.fps as int;
            if next >= now {
                SourcePace::Sleep { next: next as u128, wait: (next - now) as u128 }
            } else {
                SourcePace::GoOn { next: now }
            }
        }),
{
    let interval: u128 = SECOND / options.fps as u128;
    assert(interval <= SECOND) by (nonlinear_arith)
        requires
            interval == SECOND as int / options.fps as int,
            options.fps > 0,
            SECOND >= 0,
    ;
    let next: u128 = due + interval;
    if next >= now {
        SourcePace::Sleep { next, wait: next - now }
    } else {
        SourcePace::GoOn { next: now }
    }
}

/// A pixel, as it stands in memory.
#[derive(Debug, Clone, Copy, PartialEq, Eq, Structural)]
pub struct Bgra {
    pub blue: u8,
    pub green: u8,
    pub red: u8,
    pub alpha: u8,
}

/// The larger of a part and a least one.
pub open spec fn at_least(value: int, least: int) -> int {
    if value < least {
        least
    } else {
        value
    }
}

/// A pixel of the test pattern: a horizontal hue gradient, a white bar sweeping left to right,
/// and the frame number as 16 bit blocks on top (white is 1, dark grey is 0).
pub open spec fn pattern_pixel(width: u32, height: u32, frame: u64, x: int, y: int) -> Bgra {
    let bar = frame * 4 % (width as int);
    let block = at_least(width as int / 16, 1);
    let bit = x / block;
    if y < at_least(height as int / 10, 1) {
        if x % block == 0 {
            Bgra { blue: 0, green: 0, red: 0, alpha: 255 }
        } else if bit < 16 && (frame >> ((15 - bit) as u64)) & 1 == 1 {
            Bgra { blue: 255, green: 255, red: 255, alpha: 255 }
        } else {
            Bgra { blue: 48, green: 48, red: 48, alpha: 255 }
        }
    } else if bar <= x < bar + at_least(width as int / 24, 2) {
        Bgra { blue: 255, green: 255, red: 255, alpha: 255 }
    } else {
        Bgra {
            blue: (255 - x * 255 / (width as int)) as u8,
            green: (y * 255 / (height as int) / 2) as u8,
            red: (x * 255 / (width as int)) as u8,
            alpha: 255,
        }
    }
}

/// One byte of a pixel.
pub open spec fn channel(pixel: Bgra, c: int) -> u8 {
    if c == 0 {
        pixel.blue
    } else if c == 1 {
        pixel.green
    } else if c == 2 {
        pixel.red
    } else {
        pixel.alpha
    }
}

/// One byte of the test pattern.
pub open spec fn pattern_byte(width: u32, height: u32, frame: u64, i: int) -> u8 {
    channel(
        pattern_pixel(width, height, frame, i / 4 % (width as int), i / 4 / (width as int)),
        i % 4,
    )
}

/// A pixel of the test pattern.
fn pixel(width: u32, height: u32, frame: u64, x: u32, y: u32) -> (result: Bgra)
    requires
        x < width,
        y < height,
    ensures
        result == pattern_pixel(width, height, frame, x as int, y as int),
{
    let bar: u64 = (frame as u128 * 4 % width as u128) as u64;
    let bar_width: u64 = if width / 24 < 2 {
        2
    } else {
        (width / 24) as u64
    };
    let block: u32 = if width / 16 < 1 {
        1
    } else {
        width / 16
    };
    let strip: u32 = if height / 10 < 1 {
        1
    } else {
        height / 10
    };
    if y < strip {
        let bit: u32 = x / block;
        if x % block == 0 {
            return Bgra { blue: 0, green: 0, red: 0, alpha: 255 };
        }
        if bit < 16 {
            let shift: u64 = (15 - bit) as u64;
            if (frame >> shift) & 1 == 1 {
                return Bgra { blue: 255, green: 255, red: 255, alpha: 255 };
            }
        }
        return Bgra { blue: 48, green: 48, red: 48, alpha: 255 };
    }
    if bar <= x as u64 && (x as u64) < bar + bar_width {
        return Bgra { blue: 255, green: 255, red: 255, alpha: 255 };
    }
    let t: u64 = x as u64 * 255 / width as u64;
    let v: u64 = y as u64 * 255 / height as u64;
    proof {
        lemma_share(x as int, width as int);
        lemma_share(y as int, height as int);
    }
    Bgra { blue: (255 - t) as u8, green: (v / 2) as u8, red: t as u8, alpha: 255 }
}

/// A share of 255 is at most 255.
proof fn lemma_share(part: int, whole: int)
    requires
        0 <= part < whole,
    ensures
        0 <= part * 255 / whole <= 255,
{
    vstd::arithmetic::div_mod::lemma_div_is_ordered(part * 255, whole * 255, whole);
    vstd::arithmetic::div_mod::lemma_div_multiples_vanish(255, whole);
    vstd::arithmetic::div_mod::lemma_div_pos_is_pos(part * 255, whole);
    assert(whole * 255 == 255 * whole) by (nonlinear_arith);
}

/// The test pattern of a frame, four bytes to a pixel, row by row.
pub fn pattern(width: u32, height: u32, frame: u64) -> (result: Vec<u8>)
    requires
        width * height * 4 <= usize::MAX,
        frame * 4 <= usize::MAX,
    ensures
        result@.len() == width * height * 4,
        forall|i: int|
            0 <= i < result@.len()
                ==> #[trigger] result@[i] == pattern_byte(width, height, frame, i),
{
    let mut pixels: Vec<u8> = Vec::new();
    let count: u64 = {
        assert(width * height <= u32::MAX * u32::MAX) by (nonlinear_arith)
            requires
                width <= u32::MAX,
                height <= u32::MAX,
        ;
        width as u64 * height as u64
    };
    let mut p: u64 = 0;
    while p < count
        invariant
            p <= count,
            count == width * height,
            width * height * 4 <= usize::MAX,
            pixels@.len() == p * 4,
            forall|i: int|
                0 <= i < pixels@.len() ==> #[trigger] pixels@[i] == pattern_byte(
                    width,
                    height,
                    frame,
                    i,
                ),
        decreases count - p,
    {
        assert(width > 0) by (nonlinear_arith)
            requires
                0 <= p < width * height,
        ;
        let x: u32 = (p % width as u64) as u32;
        let y: u64 = p / width as u64;
        assert(y < height) by (nonlinear_arith)
            requires
                y == p / (width as u64),
                0 <= p < width * height,
                width > 0,
        ;
        let bgra = pixel(width, height, frame, x, y as u32);
        let ghost before = pixels@;
        pixels.push(bgra.blue);
        pixels.push(bgra.green);
        pixels.push(bgra.red);
        pixels.push(bgra.alpha);
        assert forall|i: int| 0 <= i < pixels@.len() implies #[trigger] pixels@[i] == pattern_byte(
            width,
            height,
            frame,
            i,
        ) by {
            if i < before.len() {
                assert(pixels@[i] == before[i]);
            } else {
                assert(i / 4 == p);
            }
        }
        p = p + 1;
    }
    pixels
}

/// Whether every pixel has one colour.
pub open spec fn uniform(pixels: Seq<u8>, color: Bgra) -> bool {
    forall|i: int| 0 <= i < pixels.len() / 4 * 4 ==> #[trigger] pixels[i] == channel(color, i % 4)
}

/// Whether every whole pixel has one colour.
pub fn is_uniform(pixels: &Vec<u8>, color: Bgra) -> (result: bool)
    ensures
        result == uniform(pixels@, color),
{
    let whole: usize = pixels.len() / 4 * 4;
    let mut i: usize = 0;
    while i < whole
        invariant
            i <= whole,
            whole == pixels@.len() / 4 * 4,
            whole <= pixels@.len(),
            forall|k: int| 0 <= k < i ==> #[trigger] pixels@[k] == channel(color, k % 4),
        decreases whole - i,
    {
        let expected: u8 = if i % 4 == 0 {
            color.blue
        } else if i % 4 == 1 {
            color.green
        } else if i % 4 == 2 {
            color.red
        } else {
            color.alpha
        };
        if pixels[i] != expected {
            assert(pixels@[i as int] != channel(color, i as int % 4));
            return false;
        }
        i = i + 1;
    }
    true
}

/// A later argument goes by what the earlier ones came to, and the first fault ends the list.
pub proof fn arguments_are_taken_in_order(
    args: Seq<Seq<char>>,
    arg: Seq<char>,
    value: Seq<char>,
    options: OptionsModel,
)
    requires
        takes_value(arg),
    ensures
        taken(seq![arg, value] + args, options) == (match with_value(options, arg, value) {
            Ok(next) => taken(args, next),
            Err(fault) => Err(fault),
        }),
        taken(seq![arg], options) == Err::<OptionsModel, OptionFault>(OptionFault::NeedsValue(arg)),
        taken(Seq::empty(), options) == Ok::<OptionsModel, OptionFault>(options),
{
    let all = seq![arg, value] + args;
    assert(all.skip(2) =~= args);
    reveal_strlit("--session-scope");
    reveal_strlit("--endpoint");
    reveal_strlit("--source");
    reveal_strlit("--adapter");
    reveal_strlit("--size");
    reveal_strlit("--resize-every-ms");
    reveal_strlit("--fps");
    reveal_strlit("--seconds");
    reveal_strlit("--clients");
    assert("--session-scope"@.len() == 15);
}

/// What digits stand for is not below nothing.
proof fn lemma_value_is_natural(digits: Seq<char>, radix: int)
    requires
        radix > 0,
    ensures
        value_of(digits, radix) >= 0,
    decreases digits.len(),
{
    if digits.len() > 0 {
        lemma_value_is_natural(digits.drop_last(), radix);
        let front = value_of(digits.drop_last(), radix);
        assert(front * radix >= 0) by (nonlinear_arith)
            requires
                front >= 0,
                radix > 0,
        ;
    }
}

/// Decimal digits stand for the number that they were written from.
proof fn lemma_decimal_is_read(value: nat)
    ensures
        value_of(decimal(value), 10) == value,
        all_digits(decimal(value), 10),
        decimal(value).len() > 0,
        decimal(value)[0] != '+',
        forall|i: int| 0 <= i < decimal(value).len() ==> (#[trigger] decimal(value)[i]) != 'x',
    decreases value,
{
    let text = decimal(value);
    if value < 10 {
        assert(text.drop_last() =~= Seq::empty());
        assert(value_of(text.drop_last(), 10) == 0);
    } else {
        lemma_decimal_is_read(value / 10);
        assert(text.drop_last() =~= decimal(value / 10));
        assert(text[0] == decimal(value / 10)[0]);
    }
}

/// A number that was written in decimal is read as that number, up to the bound.
pub proof fn written_numbers_are_read(value: nat, max: int)
    ensures
        value <= max ==> number_of(decimal(value), 10, max) == Ok::<int, NumberError>(value as int),
        0 <= max < value ==> number_of(decimal(value), 10, max) is Err,
{
    lemma_decimal_is_read(value);
    if max >= 0 {
        numbers_are_their_digits(decimal(value), 10, max);
    }
}

/// A size that was written as its width and its height, with an `x` between them, is taken as that
/// size, and nothing else changes.
pub proof fn written_sizes_are_taken(options: OptionsModel, width: u32, height: u32)
    ensures
        with_value(
            options,
            "--size"@,
            decimal(width as nat) + seq!['x'] + decimal(height as nat),
        ) == Ok::<OptionsModel, OptionFault>(OptionsModel { width, height, ..options }),
{
    let front = decimal(width as nat);
    let back = decimal(height as nat);
    let text = front + seq!['x'] + back;
    lemma_decimal_is_read(width as nat);
    lemma_decimal_is_read(height as nat);
    assert forall|i: int| 0 <= i < front.len() implies text[i] != 'x' by {
        assert(text[i] == front[i]);
    }
    lemma_before_x(text, front.len());
    assert(text.take(front.len() as int) =~= front);
    assert(text.skip(front.len() as int + 1) =~= back);
    written_numbers_are_read(width as nat, u32::MAX as int);
    written_numbers_are_read(height as nat, u32::MAX as int);
    reveal_strlit("--endpoint");
    reveal_strlit("--source");
    reveal_strlit("--adapter");
    reveal_strlit("--size");
    assert("--endpoint"@.len() == 10 && "--source"@.len() == 8 && "--adapter"@.len() == 9
        && "--size"@.len() == 6);
}

/// An argument with its value sets what it names to the number or the name that the value stands
/// for, and nothing else.
pub proof fn arguments_change_one_thing(options: OptionsModel, value: Seq<char>)
    ensures
        with_value(options, "--endpoint"@, value) matches Ok(next) && next.endpoint == value
            && next.fps == options.fps && next.seconds == options.seconds && next.clients
            == options.clients && next.width == options.width && next.height == options.height
            && next.window == options.window && next.adapter == options.adapter
            && next.resize_every == options.resize_every && next.scope == options.scope,
        ({
            let digits = unsigned(value);
            let number = value_of(digits, 10);
            let narrow = digits.len() > 0 && all_digits(digits, 10) && number <= u32::MAX;
            let wide = digits.len() > 0 && all_digits(digits, 10) && number <= u64::MAX;
            let fps = with_value(options, "--fps"@, value);
            let seconds = with_value(options, "--seconds"@, value);
            let clients = with_value(options, "--clients"@, value);
            let resize = with_value(options, "--resize-every-ms"@, value);
            &&& fps is Ok <==> narrow
            &&& clients is Ok <==> narrow
            &&& seconds is Ok <==> wide
            &&& resize is Ok <==> wide
            &&& fps matches Ok(next) ==> next.fps >= 1 && (number >= 1 ==> next.fps == number)
                && (OptionsModel { fps: options.fps, ..next }) == options
            &&& seconds matches Ok(next) ==> next.seconds == number && (OptionsModel {
                seconds: options.seconds,
                ..next
            }) == options
            &&& clients matches Ok(next) ==> next.clients == number && (OptionsModel {
                clients: options.clients,
                ..next
            }) == options
            &&& resize matches Ok(next) ==> next.resize_every == Some(number as u64) && (
            OptionsModel { resize_every: options.resize_every, ..next }) == options
        }),
{
    reveal_strlit("--endpoint");
    reveal_strlit("--source");
    reveal_strlit("--adapter");
    reveal_strlit("--size");
    reveal_strlit("--resize-every-ms");
    reveal_strlit("--fps");
    reveal_strlit("--seconds");
    reveal_strlit("--clients");
    assert("--endpoint"@.len() == 10 && "--source"@.len() == 8 && "--adapter"@.len() == 9
        && "--size"@.len() == 6 && "--resize-every-ms"@.len() == 17 && "--fps"@.len() == 5
        && "--seconds"@.len() == 9 && "--clients"@.len() == 9);
    assert("--seconds"@[2] == 's' && "--clients"@[2] == 'c' && "--adapter"@[2] == 'a');
    numbers_are_their_digits(value, 10, u32::MAX as int);
    numbers_are_their_digits(value, 10, u64::MAX as int);
    lemma_value_is_natural(unsigned(value), 10);
}

/// A source keeps its height; its width is the one asked for in the first interval, half as much
/// again in the second, and so on by turns. Without an interval it never changes.
pub proof fn sizes_change_by_turns(options: &Options, elapsed_ms: u128, later_ms: u128, size: (
    u32,
    u32,
), later: (u32, u32))
    requires
        call_ensures(Options::size_at, (options, elapsed_ms), size),
        call_ensures(Options::size_at, (options, later_ms), later),
    ensures
        size.1 == options.height,
        options.resize_every is None ==> size.0 == options.width,
        options.resize_every matches Some(every) ==> every > 0 ==> {
            &&& elapsed_ms < every ==> size.0 == options.width
            &&& every <= elapsed_ms < 2 * every ==> size.0
                == options.width * 3 / 2
            &&& later_ms == elapsed_ms + 2 * every ==> later.0 == size.0
        },
{
    if options.resize_every is Some && options.resize_every->0 > 0 {
        let s = options.resize_every->0 as int;
        let e = elapsed_ms as int;
        if e < s {
            vstd::arithmetic::div_mod::lemma_basic_div(e, s);
        } else if e < 2 * s {
            vstd::arithmetic::div_mod::lemma_fundamental_div_mod_converse(e, s, 1, e - s);
        }
        if later_ms == e + 2 * s {
            vstd::arithmetic::div_mod::lemma_hoist_over_denominator(e, 2, s as nat);
            assert((e + 2 * s) / s == e / s + 2);
        }
    }
}

/// A source ends when its seconds are over or as many viewers have gone as it was asked to serve,
/// and goes on in any other case, at the size of that moment.
pub proof fn sources_end_when_asked(
    options: &Options,
    start: u128,
    now: u128,
    done: u32,
    step: SourceStep,
    size: (u32, u32),
)
    requires
        start <= now,
        call_ensures(source_step, (options, start, now, done), step),
        call_ensures(Options::size_at, (options, ((now - start) as int / 1_000_000) as u128), size),
    ensures
        step is End <==> now - start >= options.seconds * 1_000_000_000 || options.clients > 0
            && done >= options.clients,
        step matches SourceStep::Tick { width, height, elapsed } ==> elapsed == now - start
            && width == size.0 && height == size.1,
{
}

/// Frames come at an even pace: the next one is due one interval after the last, and a source that
/// has fallen behind starts again from now.
pub proof fn frames_are_evenly_paced(options: &Options, due: u128, now: u128, pace: SourcePace)
    requires
        options.fps > 0,
        due + 1_000_000_000 <= u128::MAX,
        call_ensures(source_pace, (options, due, now), pace),
    ensures
        pace matches SourcePace::Sleep { next, wait } ==> {
            &&& next == now + wait
            &&& (next - due) * options.fps <= 1_000_000_000
            &&& (next - due + 1) * options.fps > 1_000_000_000
        },
        pace matches SourcePace::GoOn { next } ==> next == now && (now - due) * options.fps
            > 1_000_000_000 - options.fps,
        pace is Sleep <==> due + 1_000_000_000int / (options.fps as int) >= now,
{
    let q = 1_000_000_000int / options.fps as int;
    vstd::arithmetic::div_mod::lemma_fundamental_div_mod(1_000_000_000, options.fps as int);
    assert(q * options.fps == options.fps * q) by (nonlinear_arith);
    assert((q + 1) * options.fps == q * options.fps + options.fps) by (nonlinear_arith);
    if pace is GoOn {
        assert((now - due) * options.fps >= (q + 1) * options.fps) by (nonlinear_arith)
            requires
                now - due >= q + 1,
                options.fps > 0,
        ;
    }
}

/// The pixels of the test pattern: all are opaque; below the strip, off the bar, red and blue make
/// up one whole, and red grows to the right and green downwards; the bar is white and moves four
/// pixels with each frame; and the strip spells the frame's low bits, the highest first.
pub proof fn patterns_show_their_frame(width: u32, height: u32, frame: u64, x: int, y: int)
    requires
        0 <= x < width,
        0 <= y < height,
    ensures
        ({
            let pixel = pattern_pixel(width, height, frame, x, y);
            let strip = if height < 20 {
                1
            } else {
                height as int / 10
            };
            let bar = frame * 4 % (width as int);
            let broad = if width < 72 {
                2
            } else {
                width as int / 24
            };
            let block = if width < 32 {
                1
            } else {
                width as int / 16
            };
            &&& pixel.alpha == 255
            &&& y >= strip && bar <= x < bar + broad ==> pixel.red == 255 && pixel.green == 255
                && pixel.blue == 255
            &&& y >= strip && !(bar <= x < bar + broad) ==> {
                &&& pixel.red + pixel.blue == 255
                &&& pixel.red * width <= x * 255 < (pixel.red + 1) * width
                &&& pixel.green <= 127
                &&& x == 0 ==> pixel.red == 0
                &&& y == 0 ==> pixel.green == 0
            }
            &&& y < strip && x % block != 0 && x / block < 16 ==> {
                let bit = (frame >> ((15 - x / block) as u64)) & 1;
                &&& pixel.red == pixel.green && pixel.green == pixel.blue
                &&& bit == 1 ==> pixel.red == 255
                &&& bit != 1 ==> pixel.red == 48
            }
            &&& y < strip && x % block == 0 ==> pixel.red == 0 && pixel.green == 0
                && pixel.blue == 0
        }),
{
    lemma_share(x, width as int);
    lemma_share(y, height as int);
    let w = width as int;
    vstd::arithmetic::div_mod::lemma_fundamental_div_mod(x * 255, w);
    let t = x * 255 / w;
    assert(t * w == w * t && (t + 1) * w == t * w + w) by (nonlinear_arith);
    if x == 0 {
        vstd::arithmetic::div_mod::lemma_div_basics(w);
    }
    if y == 0 {
        vstd::arithmetic::div_mod::lemma_div_basics(height as int);
    }
}

/// The bytes of a pattern are its pixels, row by row, as blue, green, red and alpha.
pub proof fn patterns_are_their_pixels(width: u32, height: u32, frame: u64, bytes: Vec<u8>, x: int,
    y: int)
    requires
        0 <= x < width,
        0 <= y < height,
        call_ensures(pattern, (width, height, frame), bytes),
    ensures
        bytes@.len() == width * height * 4,
        ({
            let at = (y * width + x) * 4;
            let pixel = pattern_pixel(width, height, frame, x, y);
            &&& 0 <= at && at + 4 <= bytes@.len()
            &&& bytes@[at] == pixel.blue
            &&& bytes@[at + 1] == pixel.green
            &&& bytes@[at + 2] == pixel.red
            &&& bytes@[at + 3] == pixel.alpha
        }),
{
    let w = width as int;
    let p = y * w + x;
    assert(0 <= y * w && y * w + w <= height * w) by (nonlinear_arith)
        requires
            0 <= y < height,
            w > 0,
    ;
    assert(width * height == height * w) by (nonlinear_arith)
        requires
            w == width,
    ;
    vstd::arithmetic::div_mod::lemma_fundamental_div_mod_converse(p, w, y, x);
    assert(forall|c: int|
        0 <= c < 4
            ==> #[trigger] bytes@[p * 4 + c] == pattern_byte(width, height, frame, p * 4 + c));
    assert(bytes@[p * 4 + 0] == pattern_byte(width, height, frame, p * 4));
    assert(bytes@[p * 4 + 1] == pattern_byte(width, height, frame, p * 4 + 1));
    assert(bytes@[p * 4 + 2] == pattern_byte(width, height, frame, p * 4 + 2));
    assert(bytes@[p * 4 + 3] == pattern_byte(width, height, frame, p * 4 + 3));
}

/// Pixels have one colour exactly where each of them has it; what does not make a whole pixel does
/// not count.
pub proof fn uniform_pixels_are_all_alike(pixels: &Vec<u8>, color: Bgra, result: bool, i: int)
    requires
        call_ensures(is_uniform, (pixels, color), result),
        0 <= i,
        i * 4 + 4 <= pixels@.len(),
    ensures
        result ==> pixels@[i * 4] == color.blue && pixels@[i * 4 + 1] == color.green
            && pixels@[i * 4
            + 2] == color.red && pixels@[i * 4 + 3] == color.alpha,
{
}

/// Every digit up to sixteen is written by one character and, beyond nine, by its capital too, and
/// reads as its value; no other character is a digit.
pub proof fn digits_read_as_their_value(value: int, c: char)
    requires
        0 <= value < 16,
    ensures
        digit(hex_digit(value)) == value,
        'A' <= c <= 'F' ==> digit(c) == c as int - 55,
        'a' <= c <= 'f' ==> digit(c) == c as int - 87,
        '0' <= c <= '9' ==> digit(c) == c as int - 48,
        digit(c) < 16 ==> '0' <= c <= '9' || 'a' <= c <= 'f' || 'A' <= c <= 'F',
{
}

/// An adapter is the default one or the software one by name, or one by its hexadecimal number, with
/// or without the mark of such.
pub proof fn adapters_are_named_or_numbered(text: Seq<char>)
    ensures
        adapter_of("default"@) == Ok::<AdapterSelection, NumberError>(AdapterSelection::Default),
        adapter_of("warp"@) == Ok::<AdapterSelection, NumberError>(AdapterSelection::Warp),
        ({
            let marked = seq!['0', 'x'] + text;
            let plain = text.len() > 0 && all_digits(text, 16) && text != "default"@ && text
                != "warp"@;
            plain && value_of(text, 16) <= u64::MAX ==> {
                &&& adapter_of(text) == Ok::<AdapterSelection, NumberError>(
                    AdapterSelection::Luid(value_of(text, 16) as u64),
                )
                &&& adapter_of(marked) == adapter_of(text)
            }
        }),
{
    reveal_strlit("default");
    reveal_strlit("warp");
    assert("default"@[0] == 'd' && "warp"@[0] == 'w');
    let marked = seq!['0', 'x'] + text;
    assert(marked.skip(2) =~= text);
    if text.len() > 0 && all_digits(text, 16) {
        assert(digit(text[0]) < 16);
        assert(text[0] != '+');
        if text.len() >= 2 {
            assert(digit(text[1]) < 16);
        }
        assert(unmarked(text) == text);
        lemma_value_is_natural(text, 16);
        numbers_are_their_digits(text, 16, u64::MAX as int);
        assert(marked[0] == '0' && marked[1] == 'x');
        assert(unmarked(marked) == text);
    }
}

} // verus!
