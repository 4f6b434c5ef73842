//! The run's configuration and its resolution: an explicit flag wins over
//! the named environment variable, which wins over the built-in default.

use vstd::prelude::*;

use crate::text::chars_of;

verus! {

/// The mathematical content of a [`Config`].
#[verifier::ext_equal]
pub ghost struct ConfigView {
    pub acronym: Seq<char>,
    pub file: Seq<char>,
    pub acro_column: int,
    pub definition_column: int,
    pub color: bool,
    pub header: bool,
}

/// The settings of one run, resolved once at startup.
#[derive(Debug)]
pub struct Config {
    pub acronym: String,
    pub file: String,
    pub acro_column: usize,
    pub definition_column: usize,
    pub color: bool,
    pub header: bool,
}

impl View for Config {
    type V = ConfigView;

    open spec fn view(&self) -> ConfigView {
        ConfigView {
            acronym: self.acronym@,
            file: self.file@,
            acro_column: self.acro_column as int,
            definition_column: self.definition_column as int,
            color: self.color,
            header: self.header,
        }
    }
}

/// `c` is an ASCII decimal digit.
pub open spec fn is_decimal_digit(c: char) -> bool {
    48 <= c as u32 <= 57
}

/// The numeric value of the digit `c`.
pub open spec fn digit_value(c: char) -> int {
    c as u32 - 48
}

pub open spec fn all_decimal_digits(s: Seq<char>) -> bool {
    forall|i: int| 0 <= i < s.len() ==> is_decimal_digit(#[trigger] s[i])
}

/// The value of a digit string read in base ten.
pub open spec fn digits_value(s: Seq<char>) -> int
    decreases s.len(),
{
    if s.len() == 0 {
        0
    } else {
        digits_value(s.drop_last()) * 10 + digit_value(s.last())
    }
}

/// The digit part of an unsigned decimal literal: everything after an
/// optional leading plus sign.
pub open spec fn unsigned_digits(s: Seq<char>) -> Seq<char> {
    if s.len() > 0 && s[0] == '+' {
        s.subrange(1, s.len() as int)
    } else {
        s
    }
}

/// What `str::parse::<usize>` accepts: an optional plus sign, then at
/// least one decimal digit, with a value that fits in `usize`.
pub open spec fn parse_usize_spec(s: Seq<char>) -> Option<int> {
    let d = unsigned_digits(s);
    if d.len() > 0 && all_decimal_digits(d) && digits_value(d) <= usize::MAX {
        Some(digits_value(d))
    } else {
        None
    }
}

proof fn lemma_digits_value_nonneg(s: Seq<char>)
    requires
        all_decimal_digits(s),
    ensures
        digits_value(s) >= 0,
    decreases s.len(),
{
    if s.len() > 0 {
        assert(all_decimal_digits(s.drop_last()));
        lemma_digits_value_nonneg(s.drop_last());
    }
}

proof fn lemma_digits_value_step(s: Seq<char>, j: int)
    requires
        0 <= j < s.len(),
    ensures
        digits_value(s.subrange(0, j + 1)) == digits_value(s.subrange(0, j)) * 10 + digit_value(
            s[j],
        ),
{
    assert(s.subrange(0, j + 1).drop_last() =~= s.subrange(0, j));
    assert(s.subrange(0, j + 1).last() == s[j]);
}

proof fn lemma_digits_value_prefix_le(s: Seq<char>, j: int)
    requires
        all_decimal_digits(s),
        0 <= j <= s.len(),
    ensures
        digits_value(s.subrange(0, j)) <= digits_value(s),
    decreases s.len() - j,
{
    if j == s.len() {
        assert(s.subrange(0, j) =~= s);
    } else {
        lemma_digits_value_step(s, j);
        assert(all_decimal_digits(s.subrange(0, j)));
        lemma_digits_value_nonneg(s.subrange(0, j));
        lemma_digits_value_prefix_le(s, j + 1);
    }
}

/// Reads an unsigned decimal integer the way `str::parse::<usize>` does;
/// any other input, including one whose value does not fit, yields `None`.
pub fn parse_usize(s: &str) -> (r: Option<usize>)
    ensures
        match r {
            Some(u) => parse_usize_spec(s@) == Some(u as int),
            None => parse_usize_spec(s@) is None,
        },
{
    let cs = chars_of(s);
    let n = cs.len();
    let mut start: usize = 0;
    if n > 0 && cs[0] == '+' {
        start = 1;
    }
    let ghost d = unsigned_digits(s@);
    proof {
        assert(d =~= s@.subrange(start as int, s@.len() as int));
    }
    if start >= n {
        assert(d.len() == 0);
        return None;
    }
    let limit = usize::MAX / 10;
    let rem = usize::MAX % 10;
    proof {
        vstd::arithmetic::div_mod::lemma_fundamental_div_mod(usize::MAX as int, 10);
    }
    let mut acc: usize = 0;
    let mut i: usize = start;
    while i < n
        invariant
            cs@ == s@,
            n == s@.len(),
            start <= i <= n,
            start < n,
            d == unsigned_digits(s@),
            d == s@.subrange(start as int, s@.len() as int),
            limit == usize::MAX as int / 10,
            rem == usize::MAX as int % 10,
            usize::MAX as int == limit * 10 + rem,
            all_decimal_digits(d.subrange(0, i - start)),
            acc as int == digits_value(d.subrange(0, i - start)),
        decreases n - i,
    {
        let c = cs[i];
        let u = c as u32;
        proof {
            assert(d[i - start] == s@[i as int]);
        }
        if u < 48 || u > 57 {
            proof {
                assert(!is_decimal_digit(d[i - start]));
                assert(!all_decimal_digits(d));
            }
            return None;
        }
        let dv = (u - 48) as usize;
        proof {
            assert(is_decimal_digit(d[i - start]));
            assert(dv as int == digit_value(d[i - start]));
            lemma_digits_value_step(d, i - start);
            assert(all_decimal_digits(d.subrange(0, i - start + 1)));
        }
        if acc > limit || (acc == limit && dv > rem) {
            proof {
                if all_decimal_digits(d) {
                    lemma_digits_value_prefix_le(d, i - start + 1);
                    assert(digits_value(d) > usize::MAX);
                }
            }
            return None;
        }
        acc = acc * 10 + dv;
        i = i + 1;
    }
    proof {
        assert(d.subrange(0, i - start) =~= d);
    }
    Some(acc)
}

/// The resolved input path: the flag, else the environment value, else
/// the empty string.
pub open spec fn resolved_file(flag: Option<Seq<char>>, env: Option<Seq<char>>) -> Seq<char> {
    match flag {
        Some(f) => f,
        None => match env {
            Some(e) => e,
            None => Seq::empty(),
        },
    }
}

/// The resolved zero-based column: the one-based flag minus one, else the
/// environment value minus one when it parses as an unsigned integer, else
/// the default. An environment value that does not parse is ignored.
pub open spec fn resolved_column(flag: Option<usize>, env: Option<Seq<char>>, default: usize) -> int {
    match flag {
        Some(n) => n - 1,
        None => match env {
            Some(e) => match parse_usize_spec(e) {
                Some(v) => v - 1,
                None => default as int,
            },
            None => default as int,
        },
    }
}

/// A presence-style switch: set by its flag, else by the presence of its
/// environment variable.
pub open spec fn resolved_switch(flag: bool, env_present: bool) -> bool {
    flag || env_present
}

/// Column inputs a run can be resolved from: one-based positions start at
/// one, so a zero from the flag or from a parsed environment value is out.
pub open spec fn column_inputs_ok(flag: Option<usize>, env: Option<Seq<char>>) -> bool {
    &&& (flag matches Some(n) ==> n >= 1)
    &&& (flag is None ==> match env {
        Some(e) => parse_usize_spec(e) != Some(0int),
        None => true,
    })
}

/// One column, resolved by precedence: flag, then environment, then default.
fn resolve_column(flag: Option<usize>, env: &Option<String>, default: usize) -> (column: usize)
    requires
        column_inputs_ok(flag, env.deep_view()),
    ensures
        column as int == resolved_column(flag, env.deep_view(), default),
{
    match flag {
        Some(n) => n - 1,
        None => match env {
            Some(e) => match parse_usize(e.as_str()) {
                Some(v) => v - 1,
                None => default,
            },
            None => default,
        },
    }
}

/// Merges the command line, the environment and the defaults into the
/// run's configuration. Each field resolves independently: its flag wins,
/// else its environment value, else its default. The second result is
/// whether the input path was left unresolved by flag and environment
/// alike, which the caller reports as a warning.
pub fn resolve_config(
    acronym: String,
    file_flag: Option<String>,
    file_env: Option<String>,
    acro_flag: Option<usize>,
    acro_env: Option<String>,
    definition_flag: Option<usize>,
    definition_env: Option<String>,
    header_flag: bool,
    header_env: bool,
    color_flag: bool,
    color_env: bool,
) -> (resolved: (Config, bool))
    requires
        column_inputs_ok(acro_flag, acro_env.deep_view()),
        column_inputs_ok(definition_flag, definition_env.deep_view()),
    ensures
        resolved.0.acronym@ == acronym@,
        resolved.0.file@ == resolved_file(file_flag.deep_view(), file_env.deep_view()),
        resolved.0.acro_column as int == resolved_column(acro_flag, acro_env.deep_view(), 0),
        resolved.0.definition_column as int == resolved_column(
            definition_flag,
            definition_env.deep_view(),
            1,
        ),
        resolved.0.header == resolved_switch(header_flag, header_env),
        resolved.0.color == resolved_switch(color_flag, color_env),
        resolved.1 == (file_flag is None && file_env is None),
{
    let unresolved_file = file_flag.is_none() && file_env.is_none();
    let file = match file_flag {
        Some(f) => f,
        None => match file_env {
            Some(e) => e,
            None => String::new(),
        },
    };
    let acro_column = resolve_column(acro_flag, &acro_env, 0);
    let definition_column = resolve_column(definition_flag, &definition_env, 1);
    let header = header_flag || header_env;
    let color = color_flag || color_env;
    let config = Config { acronym, file, acro_column, definition_column, color, header };
    (config, unresolved_file)
}

/// Law: column resolution honours the precedence flag over environment
/// over default, field by field — a present flag decides alone; with no
/// flag, a parsable environment value decides; otherwise, including when
/// the environment value fails to parse, the default stands.
pub proof fn lemma_column_precedence(flag: Option<usize>, env: Option<Seq<char>>, default: usize)
    ensures
        flag matches Some(n) ==> resolved_column(flag, env, default) == n - 1,
        flag is None ==> match env {
            Some(e) => match parse_usize_spec(e) {
                Some(v) => resolved_column(flag, env, default) == v - 1,
                None => resolved_column(flag, env, default) == default,
            },
            None => resolved_column(flag, env, default) == default,
        },
{
}

/// Law: the input path honours the same precedence — the flag decides
/// alone when present; else the environment value; else it is empty.
pub proof fn lemma_file_precedence(flag: Option<Seq<char>>, env: Option<Seq<char>>)
    ensures
        flag matches Some(f) ==> resolved_file(flag, env) == f,
        flag is None ==> match env {
            Some(e) => resolved_file(flag, env) == e,
            None => resolved_file(flag, env) == Seq::<char>::empty(),
        },
{
}

/// Law: a switch honours the same precedence — the flag sets it; else the
/// presence of its environment variable does; else it is off.
pub proof fn lemma_switch_precedence(flag: bool, env_present: bool)
    ensures
        flag ==> resolved_switch(flag, env_present),
        (!flag && env_present) ==> resolved_switch(flag, env_present),
        (!flag && !env_present) ==> !resolved_switch(flag, env_present),
{
}

} // verus!
