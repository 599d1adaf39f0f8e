use vstd::prelude::*;

verus! {

/// Border style of the game's frames.
#[derive(Debug, Clone, Copy, PartialEq, Eq, Structural)]
pub enum BorderCorners {
    Plain,
    Rounded,
}

/// The checked launch options.
#[derive(Debug, Clone, Copy, PartialEq, Eq, Structural)]
pub struct LaunchOptions {
    /// Print the version and stop.
    pub version: bool,
    /// Accent colour, a terminal palette index from 0 to 15.
    pub color: i64,
    pub border: BorderCorners,
    /// First level, from 1 to 15.
    pub start_level: i64,
    /// Draw clickable control buttons.
    pub control_buttons: bool,
}

/// The option whose value was refused.
#[derive(Debug, Clone, Copy, PartialEq, Eq, Structural)]
pub enum OptionError {
    Color,
    BorderCorners,
    StartLevel,
    ControlButtons,
}

/// Whether `s` is a non-empty run of ASCII digits.
pub open spec fn is_digits(s: Seq<char>) -> bool {
    s.len() > 0 && forall|i: int| 0 <= i < s.len() ==> '0' <= #[trigger] s[i] <= '9'
}

/// The value of a run of decimal digits.
pub open spec fn decimal(s: Seq<char>) -> int
    decreases s.len(),
{
    if s.len() == 0 {
        0
    } else {
        decimal(s.drop_last()) * 10 + (s.last() as int - '0' as int)
    }
}

/// A run of digits has a value of at least zero.
pub proof fn lemma_decimal_nonneg(s: Seq<char>)
    requires
        forall|i: int| 0 <= i < s.len() ==> '0' <= #[trigger] s[i] <= '9',
    ensures
        decimal(s) >= 0,
    decreases s.len(),
{
    if s.len() > 0 {
        let p = s.drop_last();
        assert forall|i: int| 0 <= i < p.len() implies '0' <= #[trigger] p[i] <= '9' by {
            assert(p[i] == s[i]);
        }
        lemma_decimal_nonneg(p);
        assert(s.last() == s[s.len() - 1]);
    }
}

/// The integer that `s` writes: decimal digits after an optional `+` or `-`.
pub open spec fn integer_text(s: Seq<char>) -> Option<int> {
    if s.len() > 0 && s[0] == '-' && is_digits(s.drop_first()) {
        Some(-decimal(s.drop_first()))
    } else if s.len() > 0 && s[0] == '+' && is_digits(s.drop_first()) {
        Some(decimal(s.drop_first()))
    } else if is_digits(s) {
        Some(decimal(s))
    } else {
        None
    }
}

/// Relies on `str::parse::<i64>`: an optional sign and decimal digits give
/// their value when it fits in an `i64`; any other text is an error.
#[verifier::external_body]
fn parse_i64(s: &str) -> (r: Option<i64>)
    ensures
        r == match integer_text(s@) {
            Some(v) => if i64::MIN <= v <= i64::MAX { Some(v as i64) } else { None },
            None => None,
        },
{
    s.parse::<i64>().ok()
}

/// What `str::to_lowercase` makes of a text.
pub uninterp spec fn lower_of(s: Seq<char>) -> Seq<char>;

/// Relies on `str::to_lowercase`: the result depends on the characters alone.
#[verifier::external_body]
fn lowercase(s: &str) -> (r: String)
    ensures
        r@ == lower_of(s@),
{
    s.to_lowercase()
}

/// The integer option `s` when it parses and lies in `lo..=hi`.
pub open spec fn ranged(s: Seq<char>, lo: int, hi: int) -> Option<int> {
    match integer_text(s) {
        Some(v) => if lo <= v <= hi { Some(v) } else { None },
        None => None,
    }
}

/// Checks the raw launch options, as given on the command line or by
/// default: `color` an integer from 0 to 15, `border` `Plain` or `Rounded`,
/// `start_level` an integer from 1 to 15, `buttons` `true` or `false` in any
/// case. The first refused option, in that order, is the error.
pub fn clap_parse(version: bool, color: &str, border: &str, start_level: &str, buttons: &str) -> (r: Result<
    LaunchOptions,
    OptionError,
>)
    ensures
        ranged(color@, 0, 15) is None <==> r == Err::<LaunchOptions, OptionError>(OptionError::Color),
        ranged(color@, 0, 15) is Some && border@ != "Plain"@ && border@ != "Rounded"@ <==> r == Err::<
            LaunchOptions,
            OptionError,
        >(OptionError::BorderCorners),
        ranged(color@, 0, 15) is Some && (border@ == "Plain"@ || border@ == "Rounded"@) && ranged(start_level@, 1, 15) is None
            <==> r == Err::<LaunchOptions, OptionError>(OptionError::StartLevel),
        r is Ok <==> ranged(color@, 0, 15) is Some && (border@ == "Plain"@ || border@ == "Rounded"@) && ranged(
            start_level@,
            1,
            15,
        ) is Some && (lower_of(buttons@) == "true"@ || lower_of(buttons@) == "false"@),
        r matches Ok(o) ==> {
            &&& o.version == version
            &&& o.color == ranged(color@, 0, 15)->Some_0
            &&& o.border == (if border@ == "Plain"@ { BorderCorners::Plain } else { BorderCorners::Rounded })
            &&& o.start_level == ranged(start_level@, 1, 15)->Some_0
            &&& o.control_buttons == (lower_of(buttons@) == "true"@)
        },
{
    proof {
        reveal_strlit("Plain");
        reveal_strlit("Rounded");
        reveal_strlit("true");
        reveal_strlit("false");
    }
    let color_value = match parse_i64(color) {
        Some(v) if 0 <= v && v <= 15 => v,
        _ => {
            return Err(OptionError::Color);
        },
    };
    let border_value = if str_eq(border, "Plain") {
        BorderCorners::Plain
    } else if str_eq(border, "Rounded") {
        BorderCorners::Rounded
    } else {
        return Err(OptionError::BorderCorners);
    };
    let level_value = match parse_i64(start_level) {
        Some(v) if 1 <= v && v <= 15 => v,
        _ => {
            return Err(OptionError::StartLevel);
        },
    };
    let lower = lowercase(buttons);
    let control_buttons = match bool_from_lowercase(lower.as_str()) {
        Some(b) => b,
        None => {
            return Err(OptionError::ControlButtons);
        },
    };
    Ok(
        LaunchOptions {
            version,
            color: color_value,
            border: border_value,
            start_level: level_value,
            control_buttons,
        },
    )
}

/// The switch that an already lowercased text names: `true` or `false`.
pub fn bool_from_lowercase(lower: &str) -> (r: Option<bool>)
    ensures
        r == (if lower@ == "true"@ {
            Some(true)
        } else if lower@ == "false"@ {
            Some(false)
        } else {
            None
        }),
{
    proof {
        reveal_strlit("true");
        reveal_strlit("false");
    }
    if str_eq(lower, "true") {
        Some(true)
    } else if str_eq(lower, "false") {
        Some(false)
    } else {
        None
    }
}

/// Whether two texts hold the same characters.
fn str_eq(a: &str, b: &str) -> (r: bool)
    ensures
        r == (a@ == b@),
{
    let n = a.unicode_len();
    if n != b.unicode_len() {
        return false;
    }
    let mut i: usize = 0;
    while i < n
        invariant
            n == a@.len(),
            n == b@.len(),
            i <= n,
            forall|k: int| 0 <= k < i ==> a@[k] == b@[k],
        decreases n - i,
    {
        if a.get_char(i) != b.get_char(i) {
            return false;
        }
        i += 1;
    }
    assert(a@ =~= b@);
    true
}

} // verus!
