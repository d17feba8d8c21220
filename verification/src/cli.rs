use vstd::prelude::*;
use vstd::string::StrSliceExecFns;
use crate::color::{spec_from_str, ColorScheme};
use crate::settings::{spec_default_settings, Settings, MAX_DROP_LEN};

verus! {

/// The numeric value of a decimal digit string, most significant first.
pub open spec fn digits_val(s: Seq<char>) -> int
    decreases s.len(),
{
    if s.len() == 0 {
        0
    } else {
        digits_val(s.drop_last()) * 10 + (s.last() as int - 48)
    }
}

pub open spec fn all_digits(s: Seq<char>) -> bool {
    forall|i: int| 0 <= i < s.len() ==> 48 <= (#[trigger] s[i]) as int <= 57
}

/// What parsing an unsigned decimal yields: a value for a non-empty string
/// of digits that fits, nothing otherwise.
pub open spec fn spec_parse_u64(s: Seq<char>) -> Option<u64> {
    if s.len() > 0 && all_digits(s) && digits_val(s) <= u64::MAX {
        Some(digits_val(s) as u64)
    } else {
        None
    }
}

/// A digit string's value is non-negative and non-decreasing in the length
/// of its prefix.
proof fn lemma_digits_val_mono(s: Seq<char>, i: int, j: int)
    requires
        all_digits(s),
        0 <= i <= j <= s.len(),
    ensures
        0 <= digits_val(s.subrange(0, i)) <= digits_val(s.subrange(0, j)),
    decreases j - i,
{
    if i == j {
        lemma_digits_val_nonneg(s, i);
    } else {
        lemma_digits_val_mono(s, i, j - 1);
        assert(s.subrange(0, j).drop_last() =~= s.subrange(0, j - 1));
        assert(s.subrange(0, j).last() == s[j - 1]);
        let v = digits_val(s.subrange(0, j - 1));
        assert(v <= v * 10) by (nonlinear_arith)
            requires 0 <= v;
    }
}

proof fn lemma_digits_val_nonneg(s: Seq<char>, i: int)
    requires
        all_digits(s),
        0 <= i <= s.len(),
    ensures
        0 <= digits_val(s.subrange(0, i)),
    decreases i,
{
    if i > 0 {
        lemma_digits_val_nonneg(s, i - 1);
        assert(s.subrange(0, i).drop_last() =~= s.subrange(0, i - 1));
        assert(s.subrange(0, i).last() == s[i - 1]);
        let v = digits_val(s.subrange(0, i - 1));
        assert(0 <= v * 10) by (nonlinear_arith)
            requires 0 <= v;
    }
}

/// Parse an unsigned decimal integer; agrees exactly with
/// `spec_parse_u64`, including on overflow.
pub fn parse_u64(s: &str) -> (r: Option<u64>)
    ensures
        r == spec_parse_u64(s@),
{
    let n = s.unicode_len();
    if n == 0 {
        return None;
    }
    let mut i: usize = 0;
    let mut acc: u64 = 0;
    while i < n
        invariant
            n == s@.len(),
            0 < n,
            i <= n,
            all_digits(s@.subrange(0, i as int)),
            acc == digits_val(s@.subrange(0, i as int)),
        decreases n - i,
    {
        let c = s.get_char(i);
        let cu = c as u32;
        if cu < 48 || cu > 57 {
            proof {
                assert(!(48 <= s@[i as int] as int <= 57));
            }
            return None;
        }
        let d = (cu - 48) as u64;
        proof {
            assert(s@.subrange(0, i + 1).drop_last() =~= s@.subrange(0, i as int));
            assert(s@.subrange(0, i + 1).last() == s@[i as int]);
        }
        if acc > (u64::MAX - d) / 10 {
            proof {
                let m = (u64::MAX - d) as int;
                vstd::arithmetic::div_mod::lemma_fundamental_div_mod(m, 10);
                vstd::arithmetic::div_mod::lemma_mod_bound(m, 10);
                assert(acc * 10 >= (m / 10 + 1) * 10) by (nonlinear_arith)
                    requires acc as int >= m / 10 + 1;
                assert(digits_val(s@.subrange(0, i + 1)) > u64::MAX);
                lemma_digits_val_mono_or_not(s@, i + 1);
            }
            return None;
        }
        acc = acc * 10 + d;
        i += 1;
    }
    proof {
        assert(s@.subrange(0, n as int) =~= s@);
    }
    Some(acc)
}

/// Once some prefix of a digit string exceeds `u64::MAX`, no parse of the
/// whole string can yield a value; later characters may also fail to be
/// digits, which refuses the parse just the same.
proof fn lemma_digits_val_mono_or_not(s: Seq<char>, i: int)
    requires
        0 <= i <= s.len(),
        all_digits(s.subrange(0, i)),
        digits_val(s.subrange(0, i)) > u64::MAX,
    ensures
        spec_parse_u64(s) == Option::<u64>::None,
{
    if all_digits(s) {
        lemma_digits_val_mono(s, i, s.len() as int);
        assert(s.subrange(0, s.len() as int) =~= s);
    }
}

/// The settings after `-s/--speed <val>`: the frame delay, with 30 for an
/// unparseable value.
pub open spec fn apply_speed(s: Settings, arg: Seq<char>) -> Settings {
    Settings {
        frame_delay_ms: match spec_parse_u64(arg) {
            Some(v) => v,
            None => 30,
        },
        ..s
    }
}

/// The settings after `-d/--density <pct>`: the percentage clamped into
/// [1, 100], with 15 for an unparseable value.
pub open spec fn apply_density(s: Settings, arg: Seq<char>) -> Settings {
    let p0 = match spec_parse_u64(arg) {
        Some(v) => v as int,
        None => 15,
    };
    Settings {
        density_pct: if p0 < 1 {
            1
        } else if p0 > 100 {
            100
        } else {
            p0 as u8
        },
        ..s
    }
}

/// The settings after `-n/--spawns <n>`: the spawn attempts per frame, at
/// least 1, with 3 for a value that is unparseable or too large.
pub open spec fn apply_spawns(s: Settings, arg: Seq<char>) -> Settings {
    let v = match spec_parse_u64(arg) {
        Some(v) => if v <= u32::MAX {
            v as u32
        } else {
            3
        },
        None => 3,
    };
    Settings { spawns_per_frame: if v == 0 { 1 } else { v }, ..s }
}

/// The settings after `-l/--length <n>`: the longest drop length clamped
/// into [1, MAX_DROP_LEN], the shortest lowered to meet it, with 25 for a
/// value that is unparseable or too large.
pub open spec fn apply_length(s: Settings, arg: Seq<char>) -> Settings {
    let v = match spec_parse_u64(arg) {
        Some(v) => if v <= usize::MAX {
            v as usize
        } else {
            25
        },
        None => 25,
    };
    let l = if v < 1 {
        1
    } else if v > MAX_DROP_LEN {
        MAX_DROP_LEN
    } else {
        v
    };
    Settings {
        max_length: l,
        min_length: if s.min_length <= l {
            s.min_length
        } else {
            l
        },
        ..s
    }
}

/// The settings after `-c/--color <name>`: the named scheme, or unchanged
/// for an unrecognized name.
pub open spec fn apply_color(s: Settings, arg: Seq<char>) -> Settings {
    match spec_from_str(arg) {
        Some(c) => Settings { color_scheme: c, ..s },
        None => s,
    }
}

/// The argument walk from position `i`: a flag that has a following value
/// consumes it, `-h/--help` stops with the help request, anything else is
/// ignored.
pub open spec fn spec_parse_from(args: Seq<Seq<char>>, i: int, s: Settings) -> (Settings, bool)
    decreases args.len() - i,
{
    if i < 0 || i >= args.len() {
        (s, false)
    } else {
        let a = args[i];
        if a == "-h"@ || a == "--help"@ {
            (s, true)
        } else if a == "-s"@ || a == "--speed"@ {
            if i + 1 < args.len() {
                spec_parse_from(args, i + 2, apply_speed(s, args[i + 1]))
            } else {
                spec_parse_from(args, i + 1, s)
            }
        } else if a == "-d"@ || a == "--density"@ {
            if i + 1 < args.len() {
                spec_parse_from(args, i + 2, apply_density(s, args[i + 1]))
            } else {
                spec_parse_from(args, i + 1, s)
            }
        } else if a == "-n"@ || a == "--spawns"@ {
            if i + 1 < args.len() {
                spec_parse_from(args, i + 2, apply_spawns(s, args[i + 1]))
            } else {
                spec_parse_from(args, i + 1, s)
            }
        } else if a == "-l"@ || a == "--length"@ {
            if i + 1 < args.len() {
                spec_parse_from(args, i + 2, apply_length(s, args[i + 1]))
            } else {
                spec_parse_from(args, i + 1, s)
            }
        } else if a == "-c"@ || a == "--color"@ {
            if i + 1 < args.len() {
                spec_parse_from(args, i + 2, apply_color(s, args[i + 1]))
            } else {
                spec_parse_from(args, i + 1, s)
            }
        } else {
            spec_parse_from(args, i + 1, s)
        }
    }
}

/// What the whole command line denotes: the settings, and whether help was
/// requested. The first argument is the program name and is skipped.
pub open spec fn spec_parse_args(args: Seq<Seq<char>>) -> (Settings, bool) {
    spec_parse_from(args, 1, spec_default_settings())
}

/// One argument step keeps the settings well formed.
proof fn lemma_parse_from_wf(args: Seq<Seq<char>>, i: int, s: Settings)
    requires
        s.wf(),
    ensures
        spec_parse_from(args, i, s).0.wf(),
    decreases args.len() - i,
{
    if 0 <= i < args.len() {
        let a = args[i];
        if a == "-h"@ || a == "--help"@ {
        } else if i + 1 < args.len() {
            lemma_parse_from_wf(args, i + 2, apply_speed(s, args[i + 1]));
            lemma_parse_from_wf(args, i + 2, apply_density(s, args[i + 1]));
            lemma_parse_from_wf(args, i + 2, apply_spawns(s, args[i + 1]));
            lemma_parse_from_wf(args, i + 2, apply_length(s, args[i + 1]));
            lemma_parse_from_wf(args, i + 2, apply_color(s, args[i + 1]));
            lemma_parse_from_wf(args, i + 1, s);
        } else {
            lemma_parse_from_wf(args, i + 1, s);
        }
    }
}

/// The command line always denotes well-formed settings.
pub proof fn lemma_parse_args_wf(args: Seq<Seq<char>>)
    ensures
        spec_parse_args(args).0.wf(),
{
    lemma_parse_from_wf(args, 1, spec_default_settings());
}

/// Exact string equality.
fn str_eq(a: &str, b: &str) -> (r: bool)
    ensures
        r == (a@ == b@),
{
    let n = a.unicode_len();
    if n != b.unicode_len() {
        return false;
    }
    let mut i: usize = 0;
    while i < n
        invariant
            n == a@.len(),
            n == b@.len(),
            i <= n,
            forall|k: int| 0 <= k < i ==> a@[k] == b@[k],
        decreases n - i,
    {
        if a.get_char(i) != b.get_char(i) {
            return false;
        }
        i += 1;
    }
    proof {
        assert(a@ =~= b@);
    }
    true
}

/// Parse the command line into settings, as `spec_parse_args` has it; the
/// second component reports a help request. Unparseable values fall back
/// to built-in defaults and never fail.
pub fn parse_args(args: &Vec<String>) -> (r: (Settings, bool))
    ensures
        r == spec_parse_args(args@.map_values(|a: String| a@)),
        r.0.wf(),
{
    let ghost m = args@.map_values(|a: String| a@);
    proof {
        lemma_parse_args_wf(m);
    }
    let mut cur = Settings::default();
    let mut i: usize = 1;
    while i < args.len()
        invariant
            m == args@.map_values(|a: String| a@),
            1 <= i <= args@.len() + 1,
            spec_parse_from(m, i as int, cur) == spec_parse_args(m),
        decreases args@.len() + 1 - i,
    {
        let a = &args[i];
        if str_eq(a.as_str(), "-h") || str_eq(a.as_str(), "--help") {
            proof {
                lemma_parse_args_wf(m);
                assert(spec_parse_from(m, i as int, cur) == (cur, true));
            }
            return (cur, true);
        } else if str_eq(a.as_str(), "-s") || str_eq(a.as_str(), "--speed") {
            if i + 1 < args.len() {
                let v = parse_u64(args[i + 1].as_str());
                cur.frame_delay_ms = match v {
                    Option::Some(x) => x,
                    Option::None => 30,
                };
                i += 2;
            } else {
                i += 1;
            }
        } else if str_eq(a.as_str(), "-d") || str_eq(a.as_str(), "--density") {
            if i + 1 < args.len() {
                let v = parse_u64(args[i + 1].as_str());
                let p0: u64 = match v {
                    Option::Some(x) => x,
                    Option::None => 15,
                };
                cur.density_pct = if p0 < 1 {
                    1
                } else if p0 > 100 {
                    100
                } else {
                    p0 as u8
                };
                i += 2;
            } else {
                i += 1;
            }
        } else if str_eq(a.as_str(), "-n") || str_eq(a.as_str(), "--spawns") {
            if i + 1 < args.len() {
                let v = parse_u64(args[i + 1].as_str());
                let n0: u32 = match v {
                    Option::Some(x) => if x <= u32::MAX as u64 {
                        x as u32
                    } else {
                        3
                    },
                    Option::None => 3,
                };
                cur.spawns_per_frame = if n0 == 0 {
                    1
                } else {
                    n0
                };
                i += 2;
            } else {
                i += 1;
            }
        } else if str_eq(a.as_str(), "-l") || str_eq(a.as_str(), "--length") {
            if i + 1 < args.len() {
                let v = parse_u64(args[i + 1].as_str());
                let l0: usize = match v {
                    Option::Some(x) => if x <= usize::MAX as u64 {
                        x as usize
                    } else {
                        25
                    },
                    Option::None => 25,
                };
                let l: usize = if l0 < 1 {
                    1
                } else if l0 > MAX_DROP_LEN {
                    MAX_DROP_LEN
                } else {
                    l0
                };
                cur.max_length = l;
                if cur.min_length > l {
                    cur.min_length = l;
                }
                i += 2;
            } else {
                i += 1;
            }
        } else if str_eq(a.as_str(), "-c") || str_eq(a.as_str(), "--color") {
            if i + 1 < args.len() {
                match ColorScheme::from_str(args[i + 1].as_str()) {
                    Option::Some(c) => {
                        cur.color_scheme = c;
                    },
                    Option::None => {},
                }
                i += 2;
            } else {
                i += 1;
            }
        } else {
            i += 1;
        }
    }
    (cur, false)
}

} // verus!
