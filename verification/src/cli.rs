//! The server's command line: the options it takes, the configuration they make,
//! and the choice of a display backend.
use vstd::prelude::*;
use crate::backend::{available_backends, backends_for, EnabledBackends};
use crate::security::SecurityPolicy;
use crate::protocol::wire::decimal_digits;

verus! {

/// Whether `c` is an ASCII decimal digit.
pub open spec fn is_digit(c: char) -> bool {
    '0' <= c <= '9'
}

/// The value of the decimal digit `c`.
pub open spec fn digit_value(c: char) -> int {
    (c as int) - ('0' as int)
}

/// The value of the decimal digits `s`, most significant first.
pub open spec fn decimal_value(s: Seq<char>) -> int
    decreases s.len(),
{
    if s.len() == 0 {
        0
    } else {
        decimal_value(s.drop_last()) * 10 + digit_value(s.last())
    }
}

/// `s` without one leading `+`.
pub open spec fn unsigned_digits(s: Seq<char>) -> Seq<char> {
    if s.len() > 0 && s[0] == '+' {
        s.skip(1)
    } else {
        s
    }
}

/// The number that `s` stands for as `str::parse::<u16>` reads it: an optional `+`,
/// then one or more ASCII digits, with a value of at most 65535.
pub open spec fn parse_u16_spec(s: Seq<char>) -> Option<u16> {
    let d = unsigned_digits(s);
    if d.len() > 0 && (forall|i: int| 0 <= i < d.len() ==> is_digit(#[trigger] d[i]))
        && decimal_value(d) <= 65535 {
        Some(decimal_value(d) as u16)
    } else {
        None
    }
}

/// Digits never lower the value of what they are appended to.
proof fn lemma_decimal_value_grows(s: Seq<char>, n: int)
    requires
        0 <= n <= s.len(),
        forall|i: int| 0 <= i < s.len() ==> is_digit(#[trigger] s[i]),
    ensures
        0 <= decimal_value(s.take(n)) <= decimal_value(s),
    decreases s.len() - n,
{
    if n < s.len() {
        lemma_decimal_value_grows(s, n + 1);
        assert(s.take(n + 1).drop_last() =~= s.take(n));
    } else {
        assert(s.take(n) =~= s);
        lemma_decimal_value_nonneg(s);
    }
}

proof fn lemma_decimal_value_nonneg(s: Seq<char>)
    requires
        forall|i: int| 0 <= i < s.len() ==> is_digit(#[trigger] s[i]),
    ensures
        decimal_value(s) >= 0,
    decreases s.len(),
{
    if s.len() > 0 {
        lemma_decimal_value_nonneg(s.drop_last());
    }
}

/// The decimal digits of a number are all digits, none is a `+`, and they stand for
/// the number.
pub proof fn lemma_decimal_digits_value(n: nat)
    ensures
        decimal_digits(n).len() > 0,
        forall|i: int|
            0 <= i < decimal_digits(n).len() ==> is_digit(#[trigger] decimal_digits(n)[i]),
        decimal_value(decimal_digits(n)) == n,
    decreases n,
{
    let d = decimal_digits(n);
    if n < 10 {
        assert(d.drop_last() =~= Seq::<char>::empty());
        assert(digit_value(d.last()) == n);
        assert(decimal_value(d) == decimal_value(d.drop_last()) * 10 + digit_value(d.last()));
        assert(decimal_value(d.drop_last()) == 0);
    } else {
        lemma_decimal_digits_value(n / 10);
        assert(d.drop_last() =~= decimal_digits(n / 10));
        assert(digit_value(d.last()) == n % 10);
        assert((n / 10) * 10 + n % 10 == n) by (nonlinear_arith);
        assert(decimal_value(d) == decimal_value(d.drop_last()) * 10 + digit_value(d.last()));
        assert(decimal_value(d.drop_last()) == n / 10);
        assert forall|i: int| 0 <= i < d.len() implies is_digit(#[trigger] d[i]) by {
            if i < d.len() - 1 {
                assert(d[i] == decimal_digits(n / 10)[i]);
            }
        }
    }
}

/// A number written in decimal, as the standard library writes it, reads back as
/// that number: as a `u16` when it fits one, and as a `usize` when it fits that.
pub proof fn lemma_parse_reads_decimal(n: nat)
    ensures
        n <= 65535 ==> parse_u16_spec(decimal_digits(n)) == Some(n as u16),
        n <= usize::MAX ==> parse_usize_spec(decimal_digits(n)) == Some(n as usize),
{
    lemma_decimal_digits_value(n);
    let d = decimal_digits(n);
    assert(d[0] != '+');
    assert(unsigned_digits(d) == d);
}

/// Reads a display number the way `str::parse::<u16>` does.
pub fn parse_u16(s: &str) -> (r: Option<u16>)
    ensures
        r == parse_u16_spec(s@),
{
    let n = s.unicode_len();
    let start: usize = if n > 0 && s.get_char(0) == '+' {
        1
    } else {
        0
    };
    let ghost d = unsigned_digits(s@);
    assert(d =~= s@.skip(start as int));
    if start >= n {
        return None;
    }
    let mut value: u32 = 0;
    let mut i: usize = start;
    while i < n
        invariant
            start <= i <= n,
            n == s@.len(),
            d == s@.skip(start as int),
            d == unsigned_digits(s@),
            forall|j: int| 0 <= j < i - start ==> is_digit(#[trigger] d[j]),
            value == decimal_value(d.take(i - start)),
            value <= 65535,
        decreases n - i,
    {
        let c = s.get_char(i);
        assert(d[i - start] == c);
        if !('0' <= c && c <= '9') {
            assert(!(forall|j: int| 0 <= j < d.len() ==> is_digit(#[trigger] d[j])));
            return None;
        }
        value = value * 10 + (c as u32 - '0' as u32);
        i = i + 1;
        assert(d.take(i - start).drop_last() =~= d.take(i - start - 1));
        assert(d.take(i - start).last() == c);
        assert(value == decimal_value(d.take(i - start)));
        if value > 65535 {
            proof {
                if forall|j: int| 0 <= j < d.len() ==> is_digit(#[trigger] d[j]) {
                    lemma_decimal_value_grows(d, i - start);
                }
            }
            return None;
        }
    }
    assert(d.take(n - start) =~= d);
    Some(value as u16)
}

/// The number that `s` stands for as `str::parse::<usize>` reads it: an optional
/// `+`, then one or more ASCII digits, with a value of at most `usize::MAX`.
pub open spec fn parse_usize_spec(s: Seq<char>) -> Option<usize> {
    let d = unsigned_digits(s);
    if d.len() > 0 && (forall|i: int| 0 <= i < d.len() ==> is_digit(#[trigger] d[i]))
        && decimal_value(d) <= usize::MAX {
        Some(decimal_value(d) as usize)
    } else {
        None
    }
}

/// Reads a number the way `str::parse::<usize>` does.
pub fn parse_usize(s: &str) -> (r: Option<usize>)
    ensures
        r == parse_usize_spec(s@),
{
    let n = s.unicode_len();
    let start: usize = if n > 0 && s.get_char(0) == '+' {
        1
    } else {
        0
    };
    let ghost d = unsigned_digits(s@);
    assert(d =~= s@.skip(start as int));
    if start >= n {
        return None;
    }
    let mut value: usize = 0;
    let mut i: usize = start;
    while i < n
        invariant
            start <= i <= n,
            n == s@.len(),
            d == s@.skip(start as int),
            d == unsigned_digits(s@),
            forall|j: int| 0 <= j < i - start ==> is_digit(#[trigger] d[j]),
            value == decimal_value(d.take(i - start)),
        decreases n - i,
    {
        let c = s.get_char(i);
        assert(d[i - start] == c);
        if !('0' <= c && c <= '9') {
            assert(!(forall|j: int| 0 <= j < d.len() ==> is_digit(#[trigger] d[j])));
            return None;
        }
        let digit = (c as u32 - '0' as u32) as usize;
        assert(d.take(i + 1 - start).drop_last() =~= d.take(i - start));
        assert(d.take(i + 1 - start).last() == c);
        let next = match value.checked_mul(10) {
            Some(tens) => tens.checked_add(digit),
            None => None,
        };
        match next {
            Some(v) => {
                value = v;
                i = i + 1;
            },
            None => {
                proof {
                    assert(decimal_value(d.take(i + 1 - start)) > usize::MAX) by (nonlinear_arith)
                        requires
                            decimal_value(d.take(i + 1 - start)) == value * 10 + digit,
                            value * 10 > usize::MAX || value * 10 + digit > usize::MAX,
                            0 <= digit,
                    ;
                    if forall|j: int| 0 <= j < d.len() ==> is_digit(#[trigger] d[j]) {
                        lemma_decimal_value_grows(d, i + 1 - start);
                    }
                }
                return None;
            },
        }
    }
    assert(d.take(n - start) =~= d);
    Some(value)
}

/// Server configuration from the command line
#[derive(Debug, Clone)]
pub struct Config {
    pub display: u16,
    pub backend_type: Option<String>,
    pub listen_tcp: bool,
    pub listen_unix: bool,
    pub security: SecurityPolicy,
}

/// A configuration as values.
pub struct ConfigView {
    pub display: u16,
    pub backend_type: Option<Seq<char>>,
    pub listen_tcp: bool,
    pub listen_unix: bool,
    pub security: SecurityPolicy,
}

impl View for Config {
    type V = ConfigView;

    open spec fn view(&self) -> ConfigView {
        ConfigView {
            display: self.display,
            backend_type: match self.backend_type {
                Some(b) => Some(b@),
                None => None,
            },
            listen_tcp: self.listen_tcp,
            listen_unix: self.listen_unix,
            security: self.security,
        }
    }
}

/// The default policy of `SecurityPolicy::default`.
pub open spec fn default_policy() -> SecurityPolicy {
    SecurityPolicy {
        window_isolation: true,
        allow_global_selections: false,
        allow_keyboard_grabs: false,
        allow_pointer_grabs: true,
        max_windows_per_client: 1000,
        max_pixmaps_per_client: 1000,
    }
}

/// The configuration before any option: display 1, no backend chosen, the default
/// policy, and a Unix socket on Unix systems or TCP elsewhere.
pub open spec fn default_config(unix: bool) -> ConfigView {
    ConfigView {
        display: 1,
        backend_type: None,
        listen_tcp: !unix,
        listen_unix: unix,
        security: default_policy(),
    }
}

impl Config {
    /// The default configuration on a Unix system (`unix`) or on another.
    pub fn default_for(unix: bool) -> (r: Self)
        ensures
            r@ == default_config(unix),
    {
        Config {
            display: 1,
            backend_type: None,
            listen_tcp: !unix,
            listen_unix: unix,
            security: SecurityPolicy::default(),
        }
    }
}

/// What the command line asks the server to do.
#[derive(Debug, Clone)]
pub enum Command {
    /// Run with this configuration.
    Run(Config),
    /// Print the usage and stop.
    Help,
    /// List the available backends and stop.
    ListBackends,
}

/// A command as values.
pub enum CommandView {
    Run(ConfigView),
    Help,
    ListBackends,
}

impl View for Command {
    type V = CommandView;

    open spec fn view(&self) -> CommandView {
        match self {
            Command::Run(c) => CommandView::Run(c@),
            Command::Help => CommandView::Help,
            Command::ListBackends => CommandView::ListBackends,
        }
    }
}

/// The policy that a `-security` level names.
pub open spec fn security_level(level: Seq<char>) -> Option<SecurityPolicy> {
    if level == "permissive"@ {
        Some(
            SecurityPolicy {
                window_isolation: false,
                allow_global_selections: true,
                allow_keyboard_grabs: true,
                allow_pointer_grabs: true,
                max_windows_per_client: 0,
                max_pixmaps_per_client: 0,
            },
        )
    } else if level == "default"@ {
        Some(default_policy())
    } else if level == "strict"@ {
        Some(
            SecurityPolicy {
                window_isolation: true,
                allow_global_selections: false,
                allow_keyboard_grabs: false,
                allow_pointer_grabs: false,
                max_windows_per_client: 100,
                max_pixmaps_per_client: 100,
            },
        )
    } else {
        None
    }
}

/// The command that the arguments from `args[i]` on make of `config`: each option
/// updates the configuration in turn; a help or list option ends the reading at
/// once; a missing or invalid value or an unknown option is an error.
pub open spec fn parse_from(args: Seq<Seq<char>>, i: int, config: ConfigView) -> Result<
    CommandView,
    Seq<char>,
>
    decreases args.len() - i,
{
    if i < 0 || i >= args.len() {
        Ok(CommandView::Run(config))
    } else {
        let arg = args[i];
        if arg == "-h"@ || arg == "--help"@ {
            Ok(CommandView::Help)
        } else if arg == "-list-backends"@ {
            Ok(CommandView::ListBackends)
        } else if arg == "-display"@ {
            if i + 1 >= args.len() {
                Err("Missing value for -display"@)
            } else {
                match parse_u16_spec(args[i + 1]) {
                    Some(d) => parse_from(args, i + 2, ConfigView { display: d, ..config }),
                    None => Err("Invalid display number"@),
                }
            }
        } else if arg == "-backend"@ {
            if i + 1 >= args.len() {
                Err("Missing value for -backend"@)
            } else {
                parse_from(args, i + 2, ConfigView { backend_type: Some(args[i + 1]), ..config })
            }
        } else if arg == "-tcp"@ {
            parse_from(args, i + 1, ConfigView { listen_tcp: true, ..config })
        } else if arg == "-unix"@ {
            parse_from(args, i + 1, ConfigView { listen_unix: true, ..config })
        } else if arg == "-security"@ {
            if i + 1 >= args.len() {
                Err("Missing value for -security"@)
            } else {
                match security_level(args[i + 1]) {
                    Some(p) => parse_from(args, i + 2, ConfigView { security: p, ..config }),
                    None => Err("Invalid security level: "@ + args[i + 1]),
                }
            }
        } else {
            Err("Unknown option: "@ + arg)
        }
    }
}

/// What each option on its own does to a configuration, after the program's name
/// `prog`: `-display` with a number in decimal sets the display to it, `-backend`
/// names the backend, `-tcp` and `-unix` turn on their listeners, `-security strict`
/// and `-security permissive` set those policies; `-h`, `--help` and
/// `-list-backends` ask for the usage and the backend list; an option that needs a
/// value and has none, or a display that is not a number, is an error.
pub proof fn lemma_single_options(prog: Seq<char>, c: ConfigView, n: u16, name: Seq<char>)
    ensures
        parse_from(seq![prog, "-display"@, decimal_digits(n as nat)], 1, c) == Ok::<
            CommandView,
            Seq<char>,
        >(CommandView::Run(ConfigView { display: n, ..c })),
        parse_from(seq![prog, "-backend"@, name], 1, c) == Ok::<CommandView, Seq<char>>(
            CommandView::Run(ConfigView { backend_type: Some(name), ..c }),
        ),
        parse_from(seq![prog, "-tcp"@], 1, c) == Ok::<CommandView, Seq<char>>(
            CommandView::Run(ConfigView { listen_tcp: true, ..c }),
        ),
        parse_from(seq![prog, "-unix"@], 1, c) == Ok::<CommandView, Seq<char>>(
            CommandView::Run(ConfigView { listen_unix: true, ..c }),
        ),
        parse_from(seq![prog, "-security"@, "strict"@], 1, c) == Ok::<CommandView, Seq<char>>(
            CommandView::Run(
                ConfigView {
                    security: SecurityPolicy {
                        window_isolation: true,
                        allow_global_selections: false,
                        allow_keyboard_grabs: false,
                        allow_pointer_grabs: false,
                        max_windows_per_client: 100,
                        max_pixmaps_per_client: 100,
                    },
                    ..c
                },
            ),
        ),
        parse_from(seq![prog, "-security"@, "permissive"@], 1, c) == Ok::<CommandView, Seq<char>>(
            CommandView::Run(
                ConfigView {
                    security: SecurityPolicy {
                        window_isolation: false,
                        allow_global_selections: true,
                        allow_keyboard_grabs: true,
                        allow_pointer_grabs: true,
                        max_windows_per_client: 0,
                        max_pixmaps_per_client: 0,
                    },
                    ..c
                },
            ),
        ),
        parse_from(seq![prog, "-h"@], 1, c) == Ok::<CommandView, Seq<char>>(CommandView::Help),
        parse_from(seq![prog, "--help"@], 1, c) == Ok::<CommandView, Seq<char>>(CommandView::Help),
        parse_from(seq![prog, "-list-backends"@], 1, c) == Ok::<CommandView, Seq<char>>(
            CommandView::ListBackends,
        ),
        parse_from(seq![prog, "-display"@], 1, c) == Err::<CommandView, Seq<char>>(
            "Missing value for -display"@,
        ),
        parse_from(seq![prog, "-display"@, "x"@], 1, c) == Err::<CommandView, Seq<char>>(
            "Invalid display number"@,
        ),
{
    reveal_strlit("-h");
    reveal_strlit("--help");
    reveal_strlit("-list-backends");
    reveal_strlit("-display");
    reveal_strlit("-backend");
    reveal_strlit("-tcp");
    reveal_strlit("-unix");
    reveal_strlit("-security");
    reveal_strlit("strict");
    reveal_strlit("permissive");
    reveal_strlit("default");
    reveal_strlit("x");
    lemma_parse_reads_decimal(n as nat);
    assert("-h"@.len() == 2 && "--help"@.len() == 6 && "-list-backends"@.len() == 14);
    assert("-display"@.len() == 8 && "-backend"@.len() == 8 && "-tcp"@.len() == 4);
    assert("-unix"@.len() == 5 && "-security"@.len() == 9);
    assert("strict"@.len() == 6 && "permissive"@.len() == 10 && "default"@.len() == 7);
    assert("-backend"@[1] != "-display"@[1]);
    let x = "x"@;
    assert(unsigned_digits(x) == x);
    assert(!is_digit(x[0]));
    let d = seq![prog, "-display"@, decimal_digits(n as nat)];
    assert(d[1] == "-display"@);
    assert(d[1] != "-h"@ && d[1] != "--help"@ && d[1] != "-list-backends"@);
    assert(parse_u16_spec(d[2]) == Some(n));
    assert(parse_from(d, 3, ConfigView { display: n, ..c }) == Ok::<CommandView, Seq<char>>(
        CommandView::Run(ConfigView { display: n, ..c }),
    ));
    let b = seq![prog, "-backend"@, name];
    assert(b[1] == "-backend"@);
    assert(b[1] != "-h"@ && b[1] != "--help"@ && b[1] != "-list-backends"@ && b[1] != "-display"@);
    let t = seq![prog, "-tcp"@];
    assert(t[1] == "-tcp"@);
    assert(t[1] != "-h"@ && t[1] != "--help"@ && t[1] != "-list-backends"@ && t[1] != "-display"@
        && t[1] != "-backend"@);
    assert(parse_from(t, 2, ConfigView { listen_tcp: true, ..c }) == Ok::<CommandView, Seq<char>>(
        CommandView::Run(ConfigView { listen_tcp: true, ..c }),
    ));
    let u = seq![prog, "-unix"@];
    assert(u[1] == "-unix"@);
    assert(u[1] != "-h"@ && u[1] != "--help"@ && u[1] != "-list-backends"@ && u[1] != "-display"@
        && u[1] != "-backend"@ && u[1] != "-tcp"@);
    assert(parse_from(u, 2, ConfigView { listen_unix: true, ..c }) == Ok::<CommandView, Seq<char>>(
        CommandView::Run(ConfigView { listen_unix: true, ..c }),
    ));
    let st = seq![prog, "-security"@, "strict"@];
    let pm = seq![prog, "-security"@, "permissive"@];
    assert(st[1] == "-security"@ && pm[1] == "-security"@);
    assert(st[1] != "-h"@ && st[1] != "--help"@ && st[1] != "-list-backends"@ && st[1]
        != "-display"@ && st[1] != "-backend"@ && st[1] != "-tcp"@ && st[1] != "-unix"@);
    assert(st[2] == "strict"@ && pm[2] == "permissive"@);
    assert("strict"@ != "permissive"@ && "strict"@ != "default"@);
    assert(security_level(st[2]) is Some && security_level(pm[2]) is Some);
    assert(parse_from(st, 3, ConfigView { security: security_level(st[2])->0, ..c }) == Ok::<
        CommandView,
        Seq<char>,
    >(CommandView::Run(ConfigView { security: security_level(st[2])->0, ..c })));
    assert(parse_from(pm, 3, ConfigView { security: security_level(pm[2])->0, ..c }) == Ok::<
        CommandView,
        Seq<char>,
    >(CommandView::Run(ConfigView { security: security_level(pm[2])->0, ..c })));
    assert(parse_from(b, 3, ConfigView { backend_type: Some(name), ..c }) == Ok::<
        CommandView,
        Seq<char>,
    >(CommandView::Run(ConfigView { backend_type: Some(name), ..c })));
}

/// The text of each argument.
pub open spec fn arg_texts(args: Seq<String>) -> Seq<Seq<char>> {
    args.map_values(|a: String| a@)
}

/// Whether `a` is the text `lit`.
fn is_option(a: &String, lit: &str) -> (r: bool)
    ensures
        r == (a@ == lit@),
{
    *a == lit.to_string()
}

/// Parse the command line `args`, whose first item is the program's name, on a
/// Unix system (`unix`) or another.
pub fn parse_args(args: &[String], unix: bool) -> (r: Result<Command, String>)
    ensures
        match r {
            Ok(c) => parse_from(arg_texts(args@), 1, default_config(unix)) == Ok::<
                CommandView,
                Seq<char>,
            >(c@),
            Err(e) => parse_from(arg_texts(args@), 1, default_config(unix)) == Err::<
                CommandView,
                Seq<char>,
            >(e@),
        },
{
    let ghost texts = arg_texts(args@);
    let mut config = Config::default_for(unix);
    let mut i: usize = 1;
    while i < args.len()
        invariant
            texts == arg_texts(args@),
            1 <= i,
            parse_from(texts, i as int, config@) == parse_from(texts, 1, default_config(unix)),
        decreases args@.len() - i,
    {
        let arg = &args[i];
        assert(texts[i as int] == arg@);
        if is_option(arg, "-h") || is_option(arg, "--help") {
            return Ok(Command::Help);
        } else if is_option(arg, "-list-backends") {
            return Ok(Command::ListBackends);
        } else if is_option(arg, "-display") {
            i = i + 1;
            if i >= args.len() {
                return Err("Missing value for -display".to_string());
            }
            assert(texts[i as int] == args@[i as int]@);
            match parse_u16(args[i].as_str()) {
                Some(d) => {
                    config.display = d;
                },
                None => {
                    return Err("Invalid display number".to_string());
                },
            }
        } else if is_option(arg, "-backend") {
            i = i + 1;
            if i >= args.len() {
                return Err("Missing value for -backend".to_string());
            }
            assert(texts[i as int] == args@[i as int]@);
            config.backend_type = Some(args[i].clone());
        } else if is_option(arg, "-tcp") {
            config.listen_tcp = true;
        } else if is_option(arg, "-unix") {
            config.listen_unix = true;
        } else if is_option(arg, "-security") {
            i = i + 1;
            if i >= args.len() {
                return Err("Missing value for -security".to_string());
            }
            assert(texts[i as int] == args@[i as int]@);
            let level = &args[i];
            if is_option(level, "permissive") {
                config.security = SecurityPolicy::permissive();
            } else if is_option(level, "default") {
                config.security = SecurityPolicy::default();
            } else if is_option(level, "strict") {
                config.security = SecurityPolicy::strict();
            } else {
                return Err("Invalid security level: ".to_string().concat(level.as_str()));
            }
        } else {
            return Err("Unknown option: ".to_string().concat(arg.as_str()));
        }
        i = i + 1;
    }
    Ok(Command::Run(config))
}

/// The platform the server runs on: it decides which backends can be available,
/// and its own backend is preferred when several are.
#[derive(Debug, Clone, Copy, PartialEq, Eq, Structural)]
pub enum Platform {
    Linux,
    MacOS,
    Windows,
    /// Another Unix system, such as a BSD
    Unix,
    Other,
}

/// The text of each backend name.
pub open spec fn name_texts(names: Seq<&str>) -> Seq<Seq<char>> {
    names.map_values(|n: &str| n@)
}

/// The backend chosen among `available` on `platform`: Wayland, then X11 on Linux,
/// the native backend on macOS and Windows, and otherwise the first available.
pub open spec fn chosen_backend(available: Seq<Seq<char>>, platform: Platform) -> Option<
    Seq<char>,
> {
    if available.len() == 0 {
        None
    } else if platform == Platform::Linux && available.contains("wayland"@) {
        Some("wayland"@)
    } else if platform == Platform::Linux && available.contains("x11"@) {
        Some("x11"@)
    } else if platform == Platform::MacOS && available.contains("macos"@) {
        Some("macos"@)
    } else if platform == Platform::Windows && available.contains("windows"@) {
        Some("windows"@)
    } else {
        Some(available[0])
    }
}

/// The chosen backend is always one of the available ones, and there is one exactly
/// when any is available; on Linux Wayland wins whenever it is available, and on
/// macOS and Windows the native backend does.
pub proof fn lemma_chosen_backend_available(available: Seq<Seq<char>>, platform: Platform)
    ensures
        chosen_backend(available, platform) is Some <==> available.len() > 0,
        chosen_backend(available, platform) matches Some(b) ==> available.contains(b),
        platform == Platform::Linux && available.contains("wayland"@) ==> chosen_backend(
            available,
            platform,
        ) == Some("wayland"@),
        platform == Platform::MacOS && available.contains("macos"@) ==> chosen_backend(
            available,
            platform,
        ) == Some("macos"@),
        platform == Platform::Windows && available.contains("windows"@) ==> chosen_backend(
            available,
            platform,
        ) == Some("windows"@),
{
    if available.len() > 0 {
        assert(available.contains(available[0]));
    }
}

/// Whether `name` is among `available`.
pub fn is_available(available: &[&str], name: &str) -> (r: bool)
    ensures
        r == name_texts(available@).contains(name@),
{
    let ghost texts = name_texts(available@);
    let wanted = name.to_string();
    let mut i: usize = 0;
    while i < available.len()
        invariant
            i <= available@.len(),
            texts == name_texts(available@),
            wanted@ == name@,
            forall|j: int| 0 <= j < i ==> texts[j] != name@,
        decreases available@.len() - i,
    {
        if available[i].to_string() == wanted {
            assert(texts[i as int] == name@);
            return true;
        }
        i = i + 1;
    }
    false
}

/// Try to pick the best backend among `available` for `platform`
pub fn choose_backend(available: &[&str], platform: Platform) -> (r: Option<String>)
    ensures
        match r {
            Some(s) => chosen_backend(name_texts(available@), platform) == Some(s@),
            None => chosen_backend(name_texts(available@), platform) is None,
        },
{
    if available.len() == 0 {
        return None;
    }
    // Platform-specific preferences
    if platform == Platform::Linux {
        // Prefer Wayland on Linux if available, fall back to X11
        if is_available(available, "wayland") {
            return Some("wayland".to_string());
        }
        if is_available(available, "x11") {
            return Some("x11".to_string());
        }
    }
    if platform == Platform::MacOS && is_available(available, "macos") {
        return Some("macos".to_string());
    }
    if platform == Platform::Windows && is_available(available, "windows") {
        return Some("windows".to_string());
    }
    // Fall back to first available
    Some(available[0].to_string())
}

/// Try to auto-detect the best backend for this platform among those available
/// with `enabled` (see `backends_for` and `chosen_backend`).
pub fn auto_detect_backend(platform: Platform, enabled: EnabledBackends) -> (r: Option<String>)
    ensures
        match r {
            Some(s) => chosen_backend(backends_for(platform, enabled), platform) == Some(s@),
            None => chosen_backend(backends_for(platform, enabled), platform) is None,
        },
{
    let available = available_backends(platform, enabled);
    choose_backend(available.as_slice(), platform)
}

} // verus!
