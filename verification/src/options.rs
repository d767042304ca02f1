//! Configuration for a media discovery run.

use vstd::prelude::*;
use vstd::string::{StrSliceExecFns, StringExecFns};

verus! {

/// Immutable configuration for one discovery run: the root directories to
/// search and the flags that steer filtering and ordering.  Durations are
/// held in whole milliseconds; the caller converts to whatever its playback
/// engine expects.
#[derive(Clone)]
pub struct Options {
    /// Randomize playback through the streaming sampler.
    pub random: bool,
    /// Include hidden entries (names starting with `.`).
    pub hidden: bool,
    /// Include video files, not only images.
    pub video: bool,
    /// Mute audio during playback (consumed by the playback side only).
    pub mute: bool,
    /// How long each image is shown, in milliseconds.
    pub period_millis: u64,
    /// The root paths to search for media.
    pub paths: Vec<String>,
}

impl Options {
    /// The stock configuration over the given roots: randomized, hidden
    /// entries excluded, videos included, sound on, four seconds per image.
    pub fn with_paths(paths: Vec<String>) -> (opts: Options)
        ensures
            opts.random == true,
            opts.hidden == false,
            opts.video == true,
            opts.mute == false,
            opts.period_millis == 4000,
            opts.paths == paths,
    {
        Options { random: true, hidden: false, video: true, mute: false, period_millis: 4000, paths }
    }
}

/// Why a period string failed to parse as milliseconds.
#[derive(Clone, Copy, Debug, PartialEq, Eq, Structural)]
pub enum ParseMillisError {
    /// The input was empty.
    Empty,
    /// A character other than an ASCII digit appeared (or nothing followed
    /// a leading `+`).
    InvalidDigit,
    /// The digits denote a value above `u64::MAX`.
    Overflow,
}

/// Whether `c` is an ASCII decimal digit.
pub open spec fn is_digit(c: char) -> bool {
    ('0' as u32) <= (c as u32) <= ('9' as u32)
}

/// The numeric value of an ASCII decimal digit.
pub open spec fn digit_value(c: char) -> int {
    (c as u32 - '0' as u32) as int
}

/// Whether every character of `s` is an ASCII decimal digit.
pub open spec fn all_digits(s: Seq<char>) -> bool {
    forall|i: int| 0 <= i < s.len() ==> is_digit(#[trigger] s[i])
}

/// The value of a sequence of decimal digits, most significant first.
pub open spec fn decimal_value(s: Seq<char>) -> int
    decreases s.len(),
{
    if s.len() == 0 {
        0
    } else {
        decimal_value(s.drop_last()) * 10 + digit_value(s.last())
    }
}

/// `s` with a single leading `+` sign removed, if one is present.
pub open spec fn unsigned_body(s: Seq<char>) -> Seq<char> {
    if s.len() >= 1 && s[0] == '+' {
        s.subrange(1, s.len() as int)
    } else {
        s
    }
}

proof fn lemma_decimal_value_nonneg(s: Seq<char>)
    requires
        all_digits(s),
    ensures
        decimal_value(s) >= 0,
    decreases s.len(),
{
    if s.len() > 0 {
        assert(all_digits(s.drop_last()));
        lemma_decimal_value_nonneg(s.drop_last());
    }
}

/// Extending a digit string to the right can only increase its value.
proof fn lemma_decimal_prefix_le(s: Seq<char>, j: int)
    requires
        all_digits(s),
        0 <= j <= s.len(),
    ensures
        decimal_value(s.subrange(0, j)) <= decimal_value(s),
    decreases s.len() - j,
{
    if j == s.len() {
        assert(s.subrange(0, j) =~= s);
    } else {
        let t = s.subrange(0, j + 1);
        assert(t.drop_last() =~= s.subrange(0, j));
        assert(all_digits(s.subrange(0, j)));
        lemma_decimal_value_nonneg(s.subrange(0, j));
        assert(decimal_value(t) == decimal_value(s.subrange(0, j)) * 10 + digit_value(t.last()));
        assert(decimal_value(s.subrange(0, j)) * 10 >= decimal_value(s.subrange(0, j))) by (nonlinear_arith)
            requires
                decimal_value(s.subrange(0, j)) >= 0,
        ;
        lemma_decimal_prefix_le(s, j + 1);
    }
}

/// Parses a decimal count of milliseconds, as the command line and settings
/// layer hand it in.  An optional single leading `+` is accepted; anything
/// else but ASCII digits is rejected, and the digits must fit in a `u64`.
pub fn parse_millis(src: &str) -> (r: Result<u64, ParseMillisError>)
    ensures
        ({
            let body = unsigned_body(src@);
            match r {
                Ok(v) => body.len() > 0 && all_digits(body) && decimal_value(body) == v,
                Err(ParseMillisError::Empty) => src@.len() == 0,
                Err(ParseMillisError::InvalidDigit) => src@.len() > 0 && (body.len() == 0
                    || !all_digits(body)),
                Err(ParseMillisError::Overflow) => body.len() > 0 && all_digits(body)
                    && decimal_value(body) > u64::MAX,
            }
        }),
{
    let n = src.unicode_len();
    if n == 0 {
        return Err(ParseMillisError::Empty);
    }
    let start: usize = if src.get_char(0) == '+' {
        1
    } else {
        0
    };
    if start == n {
        return Err(ParseMillisError::InvalidDigit);
    }
    let ghost body = unsigned_body(src@);
    proof {
        assert(body =~= src@.subrange(start as int, n as int));
    }
    // First pass: every remaining character must be a digit.
    let mut i = start;
    while i < n
        invariant
            start <= i <= n,
            n == src@.len(),
            body == src@.subrange(start as int, n as int),
            body == unsigned_body(src@),
            forall|k: int| start <= k < i ==> is_digit(#[trigger] src@[k]),
        decreases n - i,
    {
        let c = src.get_char(i);
        let cu = c as u32;
        if cu < '0' as u32 || cu > '9' as u32 {
            assert(!is_digit(src@[i as int]));
            assert(body[i - start] == src@[i as int]);
            assert(!all_digits(body));
            return Err(ParseMillisError::InvalidDigit);
        }
        i = i + 1;
    }
    assert(all_digits(body)) by {
        assert(forall|k: int| 0 <= k < body.len() ==> body[k] == src@[k + start]);
    }
    // Second pass: accumulate the value, watching for overflow.
    let mut acc: u64 = 0;
    let mut j = start;
    while j < n
        invariant
            start <= j <= n,
            n == src@.len(),
            body == src@.subrange(start as int, n as int),
            body == unsigned_body(src@),
            all_digits(body),
            acc == decimal_value(src@.subrange(start as int, j as int)),
        decreases n - j,
    {
        let c = src.get_char(j);
        let cu = c as u32;
        assert(is_digit(src@[j as int])) by {
            assert(body[j - start] == src@[j as int]);
        }
        let d = (cu - '0' as u32) as u64;
        let ghost prefix = src@.subrange(start as int, j as int);
        let ghost extended = src@.subrange(start as int, j + 1);
        proof {
            assert(extended.drop_last() =~= prefix);
            assert(extended.last() == src@[j as int]);
            assert(decimal_value(extended) == decimal_value(prefix) * 10 + digit_value(src@[j as int]));
            assert(all_digits(extended)) by {
                assert(forall|k: int| 0 <= k < extended.len() ==> extended[k] == body[k]);
            }
        }
        if acc > (u64::MAX - d) / 10 {
            proof {
                assert(decimal_value(extended) > u64::MAX) by (nonlinear_arith)
                    requires
                        decimal_value(extended) == decimal_value(prefix) * 10 + digit_value(
                            src@[j as int],
                        ),
                        decimal_value(prefix) == acc,
                        digit_value(src@[j as int]) == d,
                        0 <= d <= 9,
                        acc > (u64::MAX - d) / 10,
                ;
                assert(extended =~= body.subrange(0, j + 1 - start));
                lemma_decimal_prefix_le(body, j + 1 - start);
            }
            return Err(ParseMillisError::Overflow);
        }
        assert(acc * 10 + d <= u64::MAX) by (nonlinear_arith)
            requires
                0 <= d <= 9,
                0 <= acc,
                acc <= (u64::MAX - d) / 10,
        ;
        acc = acc * 10 + d;
        j = j + 1;
    }
    Ok(acc)
}

/// `p` with a leading `~/` replaced by the home directory and a path
/// separator; any other path is left as it is.
pub open spec fn spec_expand_tilde(p: Seq<char>, home: Seq<char>) -> Seq<char> {
    if p.len() >= 2 && p[0] == '~' && p[1] == '/' {
        home + seq!['/'] + p.subrange(2, p.len() as int)
    } else {
        p
    }
}

/// Resolves a tilde-prefixed path against the home directory, the
/// configuration-normalization step that runs before discovery starts.
pub fn expand_tilde(path: &String, home: &str) -> (r: String)
    ensures
        r@ == spec_expand_tilde(path@, home@),
{
    let n = path.as_str().unicode_len();
    if n >= 2 && path.as_str().get_char(0) == '~' && path.as_str().get_char(1) == '/' {
        let rest = path.as_str().substring_char(2, n);
        let mut out = String::from_str(home);
        out.append("/");
        out.append(rest);
        proof {
            reveal_strlit("/");
            assert("/"@ =~= seq!['/']);
            assert(out@ =~= home@ + seq!['/'] + path@.subrange(2, path@.len() as int));
        }
        out
    } else {
        path.clone()
    }
}

/// Normalizes a configuration for discovery: every tilde-prefixed root is
/// resolved against the home directory when one is known; other roots and
/// all flags stay as they are.  Without a known home directory the roots
/// are left untouched.
pub fn normalize_paths(opts: Options, home: Option<String>) -> (r: Options)
    ensures
        r.random == opts.random,
        r.hidden == opts.hidden,
        r.video == opts.video,
        r.mute == opts.mute,
        r.period_millis == opts.period_millis,
        match home {
            Some(h) => r.paths@.len() == opts.paths@.len() && forall|i: int|
                0 <= i < opts.paths@.len() ==> (#[trigger] r.paths@[i])@ == spec_expand_tilde(
                    opts.paths@[i]@,
                    h@,
                ),
            None => r.paths == opts.paths,
        },
{
    match home {
        None => opts,
        Some(h) => {
            let Options { random, hidden, video, mute, period_millis, paths } = opts;
            let mut expanded: Vec<String> = Vec::new();
            let mut i: usize = 0;
            while i < paths.len()
                invariant
                    i <= paths.len(),
                    expanded@.len() == i,
                    forall|k: int| 0 <= k < i ==> (#[trigger] expanded@[k])@ == spec_expand_tilde(
                        paths@[k]@,
                        h@,
                    ),
                decreases paths.len() - i,
            {
                expanded.push(expand_tilde(&paths[i], h.as_str()));
                i = i + 1;
            }
            Options { random, hidden, video, mute, period_millis, paths: expanded }
        },
    }
}

} // verus!
