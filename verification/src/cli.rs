use vstd::prelude::*;

use crate::config::{Config, FieldError};
use crate::strings::str_eq;
use crate::Count;

verus! {

/// The program's name, as version output spells it.
pub const NAME: &'static str = "mecano";

/// The program's version, as version output spells it.
pub const VERSION: &'static str = "0.2.2";

/// The list of mode tags, quoted and comma-separated, for messages.
pub open spec fn spec_all_modes_str() -> Seq<char> {
    "\"dictionary\", \"file\""@
}

/// The list of mode tags, quoted and comma-separated, for messages.
pub fn all_modes_str() -> (r: String)
    ensures
        r@ == spec_all_modes_str(),
{
    "\"dictionary\", \"file\"".to_owned()
}

/// Which standalone flag a command line asks for.
#[derive(Debug, Clone, Copy, PartialEq, Eq, Structural)]
pub enum FlagKind {
    Help,
    ListDicts,
    ListModes,
    Version,
}

/// The flag one argument names, if any.
pub open spec fn arg_flag(a: Seq<char>) -> Option<FlagKind> {
    if a == "-h"@ || a == "--help"@ {
        Some(FlagKind::Help)
    } else if a == "--list-dictionaries"@ {
        Some(FlagKind::ListDicts)
    } else if a == "--list-modes"@ {
        Some(FlagKind::ListModes)
    } else if a == "-v"@ || a == "--version"@ {
        Some(FlagKind::Version)
    } else {
        None
    }
}

/// The flag a whole command line asks for: the last one named wins.
pub open spec fn flags_choice(args: Seq<Seq<char>>) -> Option<FlagKind>
    decreases args.len(),
{
    if args.len() == 0 {
        None
    } else if arg_flag(args.last()) is Some {
        arg_flag(args.last())
    } else {
        flags_choice(args.drop_last())
    }
}

/// The words joined one per line.
pub open spec fn joined_lines(names: Seq<Seq<char>>) -> Seq<char>
    decreases names.len(),
{
    if names.len() == 0 {
        Seq::empty()
    } else if names.len() == 1 {
        names[0]
    } else {
        joined_lines(names.drop_last()) + seq!['\n'] + names.last()
    }
}

/// Answers the standalone flags: the response text for the last flag named
/// on the command line, or nothing when no flag is named. The dictionary
/// names listed by the dictionaries flag are handed in by the caller, who
/// owns the directory that holds them.
pub fn flags(args: &Vec<String>, dict_names: &Vec<String>) -> (r: String)
    ensures
        flags_choice(args.deep_view()) is None ==> r@.len() == 0,
        flags_choice(args.deep_view()) == Some(FlagKind::Help) ==> r@ == spec_help_flag(),
        flags_choice(args.deep_view()) == Some(FlagKind::ListDicts) ==> r@ == joined_lines(
            dict_names.deep_view(),
        ),
        flags_choice(args.deep_view()) == Some(FlagKind::ListModes) ==> r@
            == "dictionary\nfile"@,
        flags_choice(args.deep_view()) == Some(FlagKind::Version) ==> r@ == NAME@ + " v"@
            + VERSION@,
{
    let n = args.len();
    let mut i: usize = 0;
    let mut found: Option<FlagKind> = None;
    while i < n
        invariant
            0 <= i <= n,
            n == args@.len(),
            found == flags_choice(args.deep_view().take(i as int)),
        decreases n - i,
    {
        let a = args[i].as_str();
        if str_eq(a, "-h") || str_eq(a, "--help") {
            found = Some(FlagKind::Help);
        } else if str_eq(a, "--list-dictionaries") {
            found = Some(FlagKind::ListDicts);
        } else if str_eq(a, "--list-modes") {
            found = Some(FlagKind::ListModes);
        } else if str_eq(a, "-v") || str_eq(a, "--version") {
            found = Some(FlagKind::Version);
        }
        proof {
            assert(args.deep_view().take(i + 1).drop_last() =~= args.deep_view().take(i as int));
            assert(args.deep_view().take(i + 1).last() == args.deep_view()[i as int]);
        }
        i += 1;
    }
    proof {
        assert(args.deep_view().take(n as int) =~= args.deep_view());
    }
    match found {
        Some(FlagKind::Help) => help_flag().to_owned(),
        Some(FlagKind::ListDicts) => list_dicts_flag(dict_names),
        Some(FlagKind::ListModes) => list_modes_flag(),
        Some(FlagKind::Version) => version_flag(),
        None => String::new(),
    }
}

/// The program name and version, as printed by the version flag.
pub fn version_flag() -> (r: String)
    ensures
        r@ == NAME@ + " v"@ + VERSION@,
{
    let s = NAME.to_owned();
    let s = s.concat(" v");
    let s = s.concat(VERSION);
    s
}

/// The known modes, one per line, as printed by the modes flag.
pub fn list_modes_flag() -> (r: String)
    ensures
        r@ == "dictionary\nfile"@,
{
    "dictionary\nfile".to_owned()
}

/// The given dictionary names, one per line, as printed by the
/// dictionaries flag.
pub fn list_dicts_flag(all_dicts: &Vec<String>) -> (r: String)
    ensures
        r@ == joined_lines(all_dicts.deep_view()),
{
    let n = all_dicts.len();
    if n == 0 {
        return String::new();
    }
    let mut msg = all_dicts[0].clone();
    let mut i: usize = 1;
    while i < n
        invariant
            1 <= i <= n,
            n == all_dicts@.len(),
            msg@ == joined_lines(all_dicts.deep_view().take(i as int)),
        decreases n - i,
    {
        msg.append("\n");
        msg.append(all_dicts[i].as_str());
        proof {
            reveal_strlit("\n");
            assert("\n"@ =~= seq!['\n']);
            assert(all_dicts.deep_view().take(i + 1).drop_last() =~= all_dicts.deep_view().take(
                i as int,
            ));
            assert(all_dicts.deep_view().take(i + 1).last() == all_dicts.deep_view()[i as int]);
            assert(msg@ =~= joined_lines(all_dicts.deep_view().take(i + 1)));
        }
        i += 1;
    }
    proof {
        assert(all_dicts.deep_view().take(n as int) =~= all_dicts.deep_view());
    }
    msg
}

/// The usage text printed by the help flag.
pub open spec fn spec_help_flag() -> Seq<char> {
    "Mecano, a typing train

Usage: mecano [OPTIONS] [FLAGS]

OPTIONS:
-f, --file <FILE>           Plays using the chosen file or dictionary
-m, --mode <MODE>           Plays the chosen mode
-r, --rate <RATE>           Plays with the chosen rate. This affects time measures accuracy. The higher the better.
-t, --time <SECS>           Choose the game time in seconds

FLAGS:
-h, --help                  Print help
-v, --version               Print version
    --list-dictionaries     List all dicitonaries. You can add more at ~/.config/mecano/dictionaries
    --list-modes            List all available modes"@
}

/// The usage text printed by the help flag.
pub fn help_flag() -> (r: &'static str)
    ensures
        r@ == spec_help_flag(),
{
    "Mecano, a typing train

Usage: mecano [OPTIONS] [FLAGS]

OPTIONS:
-f, --file <FILE>           Plays using the chosen file or dictionary
-m, --mode <MODE>           Plays the chosen mode
-r, --rate <RATE>           Plays with the chosen rate. This affects time measures accuracy. The higher the better.
-t, --time <SECS>           Choose the game time in seconds

FLAGS:
-h, --help                  Print help
-v, --version               Print version
    --list-dictionaries     List all dicitonaries. You can add more at ~/.config/mecano/dictionaries
    --list-modes            List all available modes"
}

/// The usage text of the plain help response.
pub fn help_text() -> (r: &'static str) {
    "Mecano, a typing train

Usage: mecano [OPTIONS] [FLAGS]

OPTIONS:
    -f, --file <FILE>           Plays in file mode with the chosen file
    -d, --dictionary <FILE>     Plays in dictionary mode with the chosen file
    -t, --time <SECS>           Choose the game time in seconds

FLAGS:
    -v, --version               Print version
    -h, --help                  Print help
    -l --list-dictionaries      List all dicitonaries. You can add more at ~/.config/mecano/dictionaries"
}

/// A decimal digit.
pub open spec fn is_digit(c: char) -> bool {
    '0' <= c && c <= '9'
}

/// The number a digit string denotes, read front to back.
pub open spec fn digits_value(s: Seq<char>) -> nat
    decreases s.len(),
{
    if s.len() == 0 {
        0
    } else {
        (digits_value(s.drop_last()) * 10 + (s.last() as int - '0' as int)) as nat
    }
}

/// A string that denotes a count: non-empty, digits only, in range.
pub open spec fn is_count_text(s: Seq<char>) -> bool {
    &&& s.len() > 0
    &&& forall|i: int| 0 <= i < s.len() ==> is_digit(#[trigger] s[i])
    &&& digits_value(s) <= Count::MAX
}

/// A longer digit prefix never denotes a smaller number.
proof fn lemma_digits_prefix_le(s: Seq<char>, i: int)
    requires
        0 <= i <= s.len(),
        forall|j: int| 0 <= j < s.len() ==> is_digit(#[trigger] s[j]),
    ensures
        digits_value(s.take(i)) <= digits_value(s),
    decreases s.len() - i,
{
    if i < s.len() {
        lemma_digits_prefix_le(s, i + 1);
        let t = s.take(i + 1);
        assert(t.drop_last() =~= s.take(i));
        assert(digits_value(s.take(i)) * 10 >= digits_value(s.take(i))) by (nonlinear_arith);
    } else {
        assert(s.take(i) =~= s);
    }
}

/// Reads a decimal count; it answers exactly on the strings that denote one.
pub fn parse_count(s: &str) -> (r: Option<Count>)
    ensures
        r is Some <==> is_count_text(s@),
        r matches Some(v) ==> v == digits_value(s@),
{
    let n = s.unicode_len();
    if n == 0 {
        return None;
    }
    let mut acc: Count = 0;
    let mut i: usize = 0;
    while i < n
        invariant
            0 <= i <= n,
            n == s@.len(),
            forall|j: int| 0 <= j < i ==> is_digit(#[trigger] s@[j]),
            acc == digits_value(s@.take(i as int)),
        decreases n - i,
    {
        let c = s.get_char(i);
        if !(c >= '0' && c <= '9') {
            return None;
        }
        let d: Count = (c as u32 - '0' as u32) as Count;
        if acc > (Count::MAX - d) / 10 {
            proof {
                assert(s@.take(i + 1).drop_last() =~= s@.take(i as int));
                assert(digits_value(s@.take(i + 1)) == acc * 10 + d);
                assert(acc * 10 + d > Count::MAX) by (nonlinear_arith)
                    requires
                        acc > (Count::MAX - d) / 10,
                        0 <= d <= 9,
                ;
                if forall|j: int| 0 <= j < s@.len() ==> is_digit(#[trigger] s@[j]) {
                    lemma_digits_prefix_le(s@, i + 1);
                }
            }
            return None;
        }
        proof {
            assert(s@.take(i + 1).drop_last() =~= s@.take(i as int));
            assert(acc * 10 + d <= Count::MAX) by (nonlinear_arith)
                requires
                    acc <= (Count::MAX - d) / 10,
                    0 <= d <= 9,
            ;
        }
        acc = acc * 10 + d;
        i += 1;
    }
    proof {
        assert(s@.take(n as int) =~= s@);
    }
    Some(acc)
}

/// Whether one option and its value are acceptable: a known option demands a
/// valid value, an unknown pair is passed over.
pub open spec fn pair_ok(item: Seq<char>, opt: Seq<char>) -> bool {
    if item == "-m"@ || item == "--mode"@ {
        opt == "file"@ || opt == "dictionary"@
    } else if item == "-t"@ || item == "--time"@ {
        is_count_text(opt) && digits_value(opt) >= 1
    } else if item == "-r"@ || item == "--rate"@ {
        is_count_text(opt) && digits_value(opt) >= 1 && digits_value(opt)
            <= crate::TermUnit::MAX
    } else {
        true
    }
}

/// Whether the argument pairs from position `i` on are all acceptable: every
/// remaining option has a value, and every value passes its check.
pub open spec fn args_valid(args: Seq<Seq<char>>, i: int) -> bool
    decreases args.len() - i,
    when i >= 0
{
    if i >= args.len() {
        true
    } else if i + 1 >= args.len() {
        false
    } else {
        pair_ok(args[i], args[i + 1]) && args_valid(args, i + 2)
    }
}

/// The value of the last occurrence of an option named `k1` or `k2` among
/// the argument pairs from `i` on, over the value accumulated so far.
pub open spec fn last_opt_value(
    args: Seq<Seq<char>>,
    i: int,
    k1: Seq<char>,
    k2: Seq<char>,
    acc: Option<Seq<char>>,
) -> Option<Seq<char>>
    decreases args.len() - i,
    when i >= 0
{
    if i + 1 >= args.len() {
        acc
    } else {
        let nacc = if args[i] == k1 || args[i] == k2 {
            Some(args[i + 1])
        } else {
            acc
        };
        last_opt_value(args, i + 2, k1, k2, nacc)
    }
}

/// The value the whole command line leaves for an option, if any.
pub open spec fn chosen_opt(args: Seq<Seq<char>>, k1: Seq<char>, k2: Seq<char>) -> Option<
    Seq<char>,
> {
    last_opt_value(args, 1, k1, k2, None)
}

/// Applies the command-line option pairs, after the program name, to a base
/// configuration: it answers the adjusted configuration exactly when every
/// pair is acceptable, and the first offending pair's message otherwise. On
/// success, each option's last occurrence decides its field.
pub fn config_with_args(config: Config, args: &Vec<String>) -> (r: Result<Config, String>)
    requires
        config.wf(),
    ensures
        r matches Ok(c) ==> c.wf(),
        r is Ok <==> args_valid(args.deep_view(), 1),
        r matches Ok(c) ==> {
            &&& (match chosen_opt(args.deep_view(), "-m"@, "--mode"@) {
                Some(v) => c.mode matches Some(m) && m.field@ == v,
                None => c.mode == config.mode,
            })
            &&& (match chosen_opt(args.deep_view(), "-f"@, "--file"@) {
                Some(v) => c.file matches Some(f) && f.field@ == v,
                None => c.file == config.file,
            })
            &&& (match chosen_opt(args.deep_view(), "-t"@, "--time"@) {
                Some(v) => c.max_time == Some(digits_value(v) as Count),
                None => c.max_time == config.max_time,
            })
            &&& (match chosen_opt(args.deep_view(), "-r"@, "--rate"@) {
                Some(v) => c.rate == Some(digits_value(v) as u16),
                None => c.rate == config.rate,
            })
            &&& c.lenght == config.lenght
        },
{
    let mut cfg = config;
    let n = args.len();
    let mut i: usize = 1;
    let ghost adv = args.deep_view();
    let ghost mut acc_mode: Option<Seq<char>> = None;
    let ghost mut acc_file: Option<Seq<char>> = None;
    let ghost mut acc_time: Option<Seq<char>> = None;
    let ghost mut acc_rate: Option<Seq<char>> = None;
    while i < n
        invariant
            1 <= i,
            i <= n || i == n + 1,
            n == args@.len(),
            adv == args.deep_view(),
            cfg.wf(),
            args_valid(adv, 1) == args_valid(adv, i as int),
            chosen_opt(adv, "-m"@, "--mode"@) == last_opt_value(adv, i as int, "-m"@, "--mode"@, acc_mode),
            chosen_opt(adv, "-f"@, "--file"@) == last_opt_value(adv, i as int, "-f"@, "--file"@, acc_file),
            chosen_opt(adv, "-t"@, "--time"@) == last_opt_value(adv, i as int, "-t"@, "--time"@, acc_time),
            chosen_opt(adv, "-r"@, "--rate"@) == last_opt_value(adv, i as int, "-r"@, "--rate"@, acc_rate),
            (match acc_mode {
                Some(v) => cfg.mode matches Some(m) && m.field@ == v,
                None => cfg.mode == config.mode,
            }),
            (match acc_file {
                Some(v) => cfg.file matches Some(f) && f.field@ == v,
                None => cfg.file == config.file,
            }),
            (match acc_time {
                Some(v) => is_count_text(v) && cfg.max_time == Some(digits_value(v) as Count),
                None => cfg.max_time == config.max_time,
            }),
            (match acc_rate {
                Some(v) => is_count_text(v) && digits_value(v) <= crate::TermUnit::MAX
                    && cfg.rate == Some(digits_value(v) as u16),
                None => cfg.rate == config.rate,
            }),
            cfg.lenght == config.lenght,
        decreases n - i,
    {
        if i + 1 >= n {
            let mut msg = "Missing argument for option \"".to_owned();
            msg.append(args[i].as_str());
            msg.append("\"");
            return Err(msg);
        }
        let item = args[i].as_str();
        let opt = args[i + 1].as_str();
        let ghost dv = args.deep_view();
        proof {
            reveal_strlit("-m");
            reveal_strlit("--mode");
            reveal_strlit("-f");
            reveal_strlit("--file");
            reveal_strlit("-t");
            reveal_strlit("--time");
            reveal_strlit("-r");
            reveal_strlit("--rate");
            assert(dv[i as int] == item@);
            assert(dv[i as int + 1] == opt@);
            assert("-m"@.len() == 2 && "-f"@.len() == 2 && "-t"@.len() == 2 && "-r"@.len() == 2);
            assert("--mode"@.len() == 6 && "--file"@.len() == 6 && "--time"@.len() == 6
                && "--rate"@.len() == 6);
            assert("-m"@[1] == 'm' && "-f"@[1] == 'f' && "-t"@[1] == 't' && "-r"@[1] == 'r');
            assert("--mode"@[2] == 'm' && "--file"@[2] == 'f' && "--time"@[2] == 't'
                && "--rate"@[2] == 'r');
        }
        let mut err: Option<FieldError> = None;
        if str_eq(item, "-m") || str_eq(item, "--mode") {
            err = cfg.set_mode(opt);
            proof {
                if err is None {
                    acc_mode = Some(dv[i as int + 1]);
                }
                assert(err is None ==> pair_ok(dv[i as int], dv[i as int + 1]));
                assert(err is Some ==> !pair_ok(dv[i as int], dv[i as int + 1]));
            }
        } else if str_eq(item, "-f") || str_eq(item, "--file") {
            err = cfg.set_file(opt);
            proof {
                acc_file = Some(dv[i as int + 1]);
                assert(pair_ok(dv[i as int], dv[i as int + 1]));
            }
        } else if str_eq(item, "-t") || str_eq(item, "--time") {
            match parse_count(opt) {
                Some(time) => {
                    err = cfg.set_max_time(time);
                },
                None => {
                    err = Some(FieldError::NotAPositiveNumber);
                },
            }
            proof {
                if err is None {
                    acc_time = Some(dv[i as int + 1]);
                }
                assert(err is None ==> pair_ok(dv[i as int], dv[i as int + 1]));
                assert(err is Some ==> !pair_ok(dv[i as int], dv[i as int + 1]));
            }
        } else if str_eq(item, "-r") || str_eq(item, "--rate") {
            match parse_count(opt) {
                Some(rate) => {
                    if rate <= crate::TermUnit::MAX as Count {
                        err = cfg.set_rate(rate as u16);
                    } else {
                        err = Some(FieldError::NotAPositiveNumber);
                    }
                },
                None => {
                    err = Some(FieldError::NotAPositiveNumber);
                },
            }
            proof {
                if err is None {
                    acc_rate = Some(dv[i as int + 1]);
                }
                assert(err is None ==> pair_ok(dv[i as int], dv[i as int + 1]));
                assert(err is Some ==> !pair_ok(dv[i as int], dv[i as int + 1]));
            }
        } else {
            proof {
                assert(pair_ok(dv[i as int], dv[i as int + 1]));
            }
        }
        proof {
            if err is None {
                assert(args_valid(dv, i as int) == args_valid(dv, i as int + 2));
                assert(chosen_opt(adv, "-m"@, "--mode"@) == last_opt_value(adv, i as int + 2, "-m"@, "--mode"@, acc_mode));
                assert(chosen_opt(adv, "-f"@, "--file"@) == last_opt_value(adv, i as int + 2, "-f"@, "--file"@, acc_file));
                assert(chosen_opt(adv, "-t"@, "--time"@) == last_opt_value(adv, i as int + 2, "-t"@, "--time"@, acc_time));
                assert(chosen_opt(adv, "-r"@, "--rate"@) == last_opt_value(adv, i as int + 2, "-r"@, "--rate"@, acc_rate));
            } else {
                assert(!args_valid(dv, i as int));
            }
        }
        match err {
            Some(e) => {
                let mut msg = "Error in option \"".to_owned();
                msg.append(item);
                msg.append("\": \"");
                msg.append(opt);
                msg.append("\" ");
                let error = e.error_msg();
                msg.append(error.as_str());
                msg.append(". Expecting ");
                let expecting = e.expecting();
                msg.append(expecting.as_str());
                return Err(msg);
            },
            None => {},
        }
        i += 2;
    }
    Ok(cfg)
}

} // verus!
