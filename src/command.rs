//! Parsing of the argument of `break`.
//!
//! `*<hex>` is a raw address (an optional `0x`/`0X` prefix is allowed), a
//! token that reads as a decimal number is a source line, anything else is
//! a function name. Only the last two need the symbol resolver.
use vstd::prelude::*;

verus! {

/// Value of the digit `c` in base `radix` (10 or 16), or -1.
pub open spec fn digit_value(c: char, radix: nat) -> int {
    let n = c as u32 as int;
    if 48 <= n <= 57 {
        n - 48
    } else if radix == 16 && 97 <= n <= 102 {
        n - 87
    } else if radix == 16 && 65 <= n <= 70 {
        n - 55
    } else {
        -1
    }
}

pub open spec fn all_digits(s: Seq<char>, radix: nat) -> bool {
    forall|i: int| 0 <= i < s.len() ==> digit_value(#[trigger] s[i], radix) >= 0
}

/// The number that the digit string `s` denotes in base `radix`.
pub open spec fn digits_value(s: Seq<char>, radix: nat) -> nat
    decreases s.len(),
{
    if s.len() == 0 {
        0
    } else {
        digits_value(s.drop_last(), radix) * radix + digit_value(s.last(), radix) as nat
    }
}

/// `s` without one leading `+`.
pub open spec fn unsigned_digits(s: Seq<char>) -> Seq<char> {
    if s.len() > 0 && s[0] == '+' {
        s.drop_first()
    } else {
        s
    }
}

/// An unsigned machine integer written in base `radix`: an optional `+`,
/// then at least one digit, and a value that fits in `usize`.
pub open spec fn parse_unsigned(s: Seq<char>, radix: nat) -> Option<usize> {
    let d = unsigned_digits(s);
    if d.len() > 0 && all_digits(d, radix) && digits_value(d, radix) <= usize::MAX {
        Some(digits_value(d, radix) as usize)
    } else {
        None
    }
}

/// `s` without a leading `0x` or `0X`.
pub open spec fn hex_body(s: Seq<char>) -> Seq<char> {
    if s.len() >= 2 && s[0] == '0' && (s[1] == 'x' || s[1] == 'X') {
        s.subrange(2, s.len() as int)
    } else {
        s
    }
}

/// The address that the text after `*` in a raw break spec denotes.
pub open spec fn address_of(s: Seq<char>) -> Option<usize> {
    parse_unsigned(hex_body(s), 16)
}

pub open spec fn is_raw(s: Seq<char>) -> bool {
    s.len() > 0 && s[0] == '*'
}

proof fn lemma_digits_monotone(s: Seq<char>, radix: nat, i: int, j: int)
    requires
        radix >= 1,
        0 <= i <= j <= s.len(),
        all_digits(s, radix),
    ensures
        digits_value(s.take(i), radix) <= digits_value(s.take(j), radix),
    decreases j - i,
{
    if i < j {
        lemma_digits_monotone(s, radix, i, j - 1);
        let t = s.take(j);
        assert(t.drop_last() =~= s.take(j - 1));
        assert(digit_value(s[j - 1], radix) >= 0);
        let v = digits_value(s.take(j - 1), radix);
        assert(v * radix >= v) by (nonlinear_arith)
            requires
                radix >= 1,
        ;
    }
}

fn digit_of(c: char, radix: usize) -> (r: Option<usize>)
    requires
        radix == 10 || radix == 16,
    ensures
        digit_value(c, radix as nat) >= 0 ==> r == Some(digit_value(c, radix as nat) as usize),
        digit_value(c, radix as nat) < 0 ==> r.is_none(),
{
    let n = c as u32;
    if 48 <= n && n <= 57 {
        Some((n - 48) as usize)
    } else if radix == 16 && 97 <= n && n <= 102 {
        Some((n - 87) as usize)
    } else if radix == 16 && 65 <= n && n <= 70 {
        Some((n - 55) as usize)
    } else {
        None
    }
}

/// Reads an unsigned integer in base 10 or 16, as `usize::from_str_radix`
/// does.
pub fn parse_unsigned_radix(s: &str, radix: usize) -> (r: Option<usize>)
    requires
        radix == 10 || radix == 16,
    ensures
        r == parse_unsigned(s@, radix as nat),
{
    let n = s.unicode_len();
    let start: usize = if n > 0 && s.get_char(0) == '+' {
        1
    } else {
        0
    };
    let ghost d = unsigned_digits(s@);
    assert(d =~= s@.subrange(start as int, n as int));
    if start == n {
        return None;
    }
    let mut acc: usize = 0;
    let mut i: usize = start;
    while i < n
        invariant
            start <= i <= n,
            n == s@.len(),
            d =~= s@.subrange(start as int, n as int),
            d == unsigned_digits(s@),
            radix == 10 || radix == 16,
            all_digits(d.take(i - start), radix as nat),
            acc == digits_value(d.take(i - start), radix as nat),
        decreases n - i,
    {
        let c = s.get_char(i);
        let ghost k = (i - start) as int;
        assert(d[k] == c);
        assert(d.take(k + 1).drop_last() =~= d.take(k));
        match digit_of(c, radix) {
            None => {
                assert(!all_digits(d, radix as nat)) by {
                    assert(digit_value(d[k], radix as nat) < 0);
                }
                return None;
            },
            Some(v) => {
                assert forall|j: int| 0 <= j < k + 1 implies digit_value(
                    #[trigger] d.take(k + 1)[j],
                    radix as nat,
                ) >= 0 by {
                    if j < k {
                        assert(d.take(k + 1)[j] == d.take(k)[j]);
                    }
                }
                match acc.checked_mul(radix) {
                    None => {
                        proof {
                            if all_digits(d, radix as nat) {
                                lemma_digits_monotone(d, radix as nat, k + 1, d.len() as int);
                                assert(d.take(d.len() as int) =~= d);
                            }
                        }
                        return None;
                    },
                    Some(m) => match m.checked_add(v) {
                        None => {
                            proof {
                                if all_digits(d, radix as nat) {
                                    lemma_digits_monotone(d, radix as nat, k + 1, d.len() as int);
                                    assert(d.take(d.len() as int) =~= d);
                                }
                            }
                            return None;
                        },
                        Some(a) => {
                            acc = a;
                        },
                    },
                }
            },
        }
        i += 1;
    }
    assert(d.take(d.len() as int) =~= d);
    Some(acc)
}

/// Reads the hexadecimal address of a raw break spec (the text after `*`).
pub fn parse_address(addr: &str) -> (r: Option<usize>)
    ensures
        r == address_of(addr@),
{
    let n = addr.unicode_len();
    if n >= 2 && addr.get_char(0) == '0' && (addr.get_char(1) == 'x' || addr.get_char(1) == 'X') {
        let body = addr.substring_char(2, n);
        parse_unsigned_radix(body, 16)
    } else {
        parse_unsigned_radix(addr, 16)
    }
}

/// How a break spec names its location.
pub enum BreakPointType<'a> {
    /// `*<hex>`: the text after the star.
    Raw(&'a str),
    /// A decimal source line number.
    Line(usize),
    /// A function name.
    Func(&'a str),
}

/// Classifies a break spec: raw address first, then line number, then
/// function name.
pub fn get_breakpoint_type(breakpoint: &str) -> (r: BreakPointType<'_>)
    ensures
        is_raw(breakpoint@) <==> r is Raw,
        r matches BreakPointType::Raw(rest) ==> rest@ == breakpoint@.drop_first(),
        !is_raw(breakpoint@) && parse_unsigned(breakpoint@, 10) is Some ==> r
            == BreakPointType::Line(parse_unsigned(breakpoint@, 10).unwrap()),
        !is_raw(breakpoint@) && parse_unsigned(breakpoint@, 10) is None ==> (r matches BreakPointType::Func(
            f,
        ) && f@ == breakpoint@),
{
    let n = breakpoint.unicode_len();
    if n > 0 && breakpoint.get_char(0) == '*' {
        return BreakPointType::Raw(breakpoint.substring_char(1, n));
    }
    match parse_unsigned_radix(breakpoint, 10) {
        Some(line) => BreakPointType::Line(line),
        None => BreakPointType::Func(breakpoint),
    }
}

/// Where a break spec points, once raw addresses are read.
pub enum BreakTarget<'a> {
    /// A raw address, known without the symbol resolver.
    Address(usize),
    /// A raw spec whose text is not a hexadecimal address.
    BadAddress,
    /// A source line, to be looked up by the resolver.
    Line(usize),
    /// A function name, to be looked up by the resolver.
    Function(&'a str),
}

/// Reads a break spec as far as it can be read without debug symbols.
/// A raw spec never asks for the resolver: it is an address or an error.
pub fn break_target(spec: &str) -> (r: BreakTarget<'_>)
    ensures
        is_raw(spec@) ==> (r is Address || r is BadAddress),
        is_raw(spec@) && address_of(spec@.drop_first()) is Some ==> r == BreakTarget::Address(
            address_of(spec@.drop_first()).unwrap(),
        ),
        is_raw(spec@) && address_of(spec@.drop_first()) is None ==> r is BadAddress,
        !is_raw(spec@) && parse_unsigned(spec@, 10) is Some ==> r == BreakTarget::Line(
            parse_unsigned(spec@, 10).unwrap(),
        ),
        !is_raw(spec@) && parse_unsigned(spec@, 10) is None ==> (r matches BreakTarget::Function(f)
            && f@ == spec@),
{
    match get_breakpoint_type(spec) {
        BreakPointType::Raw(rest) => match parse_address(rest) {
            Some(a) => BreakTarget::Address(a),
            None => BreakTarget::BadAddress,
        },
        BreakPointType::Line(line) => BreakTarget::Line(line),
        BreakPointType::Func(f) => BreakTarget::Function(f),
    }
}


/// Whether `a` and `b` hold the same characters.
pub fn str_eq(a: &str, b: &str) -> (r: bool)
    ensures
        r == (a@ == b@),
{
    let n = a.unicode_len();
    if n != b.unicode_len() {
        return false;
    }
    let mut i: usize = 0;
    while i < n
        invariant
            i <= n,
            n == a@.len(),
            n == b@.len(),
            forall|j: int| 0 <= j < i ==> a@[j] == b@[j],
        decreases n - i,
    {
        if a.get_char(i) != b.get_char(i) {
            return false;
        }
        i += 1;
    }
    assert(a@ =~= b@);
    true
}

/// A command of the debugger's prompt.
pub enum DebuggerCommand {
    /// `quit` or `q`.
    Quit,
    /// `run [args...]`: the arguments for the target.
    Run(Vec<String>),
    /// `continue` or `c`.
    Continue,
    /// `backtrace` or `bt`.
    Backtrace,
    /// `break <spec>` or `b <spec>`.
    Break(String),
}

pub open spec fn is_quit(t: Seq<char>) -> bool {
    t == "quit"@ || t == "q"@
}

pub open spec fn is_run(t: Seq<char>) -> bool {
    t == "run"@
}

pub open spec fn is_continue(t: Seq<char>) -> bool {
    t == "continue"@ || t == "c"@
}

pub open spec fn is_backtrace(t: Seq<char>) -> bool {
    t == "backtrace"@ || t == "bt"@
}

pub open spec fn is_break(t: Seq<char>) -> bool {
    t == "break"@ || t == "b"@
}

/// Owned copies of every token but the first.
fn owned_tail(tokens: &Vec<&str>) -> (args: Vec<String>)
    requires
        tokens@.len() >= 1,
    ensures
        args@.len() == tokens@.len() - 1,
        forall|j: int| 0 <= j < args@.len() ==> #[trigger] args@[j]@ == tokens@[j + 1]@,
{
    let mut args: Vec<String> = Vec::new();
    let mut i: usize = 1;
    while i < tokens.len()
        invariant
            1 <= i <= tokens@.len(),
            args@.len() == i - 1,
            forall|j: int| 0 <= j < args@.len() ==> #[trigger] args@[j]@ == tokens@[j + 1]@,
        decreases tokens@.len() - i,
    {
        args.push(tokens[i].to_owned());
        i += 1;
    }
    args
}

impl DebuggerCommand {
    /// Reads a command from the whitespace-separated tokens of a line.
    /// Unknown words, an empty line and `break` without a spec give `None`.
    pub fn from_tokens(tokens: &Vec<&str>) -> (r: Option<DebuggerCommand>)
        ensures
            tokens@.len() == 0 ==> r is None,
            tokens@.len() > 0 ==> ((r matches Some(DebuggerCommand::Quit)) <==> is_quit(tokens@[0]@)),
            tokens@.len() > 0 ==> ((r matches Some(DebuggerCommand::Continue)) <==> is_continue(tokens@[0]@)),
            tokens@.len() > 0 ==> ((r matches Some(DebuggerCommand::Backtrace)) <==> is_backtrace(tokens@[0]@)),
            tokens@.len() > 0 ==> ((r matches Some(DebuggerCommand::Run(_))) <==> is_run(tokens@[0]@)),
            tokens@.len() > 0 ==> ((r matches Some(DebuggerCommand::Break(_))) <==> (is_break(tokens@[0]@)
                && tokens@.len() >= 2)),
            r matches Some(DebuggerCommand::Run(args)) ==> args@.len() == tokens@.len() - 1 && forall|
                i: int,
            | 0 <= i < args@.len() ==> #[trigger] args@[i]@ == tokens@[i + 1]@,
            r matches Some(DebuggerCommand::Break(spec)) ==> spec@ == tokens@[1]@,
    {
        proof {
            reveal_strlit("quit");
            reveal_strlit("q");
            reveal_strlit("run");
            reveal_strlit("continue");
            reveal_strlit("c");
            reveal_strlit("backtrace");
            reveal_strlit("bt");
            reveal_strlit("break");
            reveal_strlit("b");
            assert("q"@[0] != "c"@[0] && "q"@[0] != "b"@[0] && "c"@[0] != "b"@[0]);
            assert("q"@ != "c"@ && "q"@ != "b"@ && "c"@ != "b"@);
            assert("quit"@.len() == 4 && "continue"@.len() == 8 && "backtrace"@.len() == 9);
            assert("run"@.len() == 3 && "bt"@.len() == 2 && "break"@.len() == 5);
        }
        if tokens.len() == 0 {
            return None;
        }
        let t = tokens[0];
        if str_eq(t, "quit") || str_eq(t, "q") {
            Some(DebuggerCommand::Quit)
        } else if str_eq(t, "continue") || str_eq(t, "c") {
            Some(DebuggerCommand::Continue)
        } else if str_eq(t, "backtrace") || str_eq(t, "bt") {
            Some(DebuggerCommand::Backtrace)
        } else if str_eq(t, "run") {
            let args = owned_tail(tokens);
            Some(DebuggerCommand::Run(args))
        } else if (str_eq(t, "break") || str_eq(t, "b")) && tokens.len() >= 2 {
            Some(DebuggerCommand::Break(tokens[1].to_owned()))
        } else {
            None
        }
    }
}

} // verus!
