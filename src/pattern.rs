//! Pattern tokens, the grammar of pattern text, and the pattern compiler.
use vstd::prelude::*;
use vstd::string::*;
use crate::error::Error;

verus! {

/// One position of a pattern: a fixed byte, or a wildcard that matches any byte.
#[derive(Clone, Copy, Debug, PartialEq, Eq, Structural)]
pub enum PatternByte {
    Byte(u8),
    Any,
}

/// Whether token `t` accepts byte `b`.
pub open spec fn token_matches(t: PatternByte, b: u8) -> bool {
    match t {
        PatternByte::Byte(v) => v == b,
        PatternByte::Any => true,
    }
}

/// The characters that separate segments of pattern text: ASCII whitespace.
pub open spec fn is_separator(c: char) -> bool {
    c == ' ' || c == '\t' || c == '\n' || c == '\x0C' || c == '\r'
}

/// The segments of `s`: its maximal runs of non-separator characters, in order.
pub open spec fn segments(s: Seq<char>) -> Seq<Seq<char>>
    decreases s.len(),
{
    if s.len() == 0 {
        seq![]
    } else {
        let init = segments(s.drop_last());
        let c = s.last();
        if is_separator(c) {
            init
        } else if s.len() >= 2 && !is_separator(s[s.len() - 2]) {
            init.drop_last().push(init.last().push(c))
        } else {
            init.push(seq![c])
        }
    }
}

/// Whether `c` is a hexadecimal digit, in either case.
pub open spec fn is_hex_digit(c: char) -> bool {
    ('0' as u32 <= c as u32 <= '9' as u32) || ('a' as u32 <= c as u32 <= 'f' as u32) || (
    'A' as u32 <= c as u32 <= 'F' as u32)
}

/// The value of a hexadecimal digit.
pub open spec fn hex_value(c: char) -> int {
    if '0' as u32 <= c as u32 <= '9' as u32 {
        c as u32 - '0' as u32
    } else if 'a' as u32 <= c as u32 <= 'f' as u32 {
        c as u32 - 'a' as u32 + 10
    } else {
        c as u32 - 'A' as u32 + 10
    }
}

/// Whether every character of `seg` is a hexadecimal digit.
pub open spec fn all_hex_digits(seg: Seq<char>) -> bool {
    forall|i: int| 0 <= i < seg.len() ==> is_hex_digit(#[trigger] seg[i])
}

/// The token that a segment denotes: `?`, or one or two hexadecimal digits.
pub open spec fn parse_token(seg: Seq<char>) -> Option<PatternByte> {
    if seg == seq!['?'] {
        Some(PatternByte::Any)
    } else if seg.len() == 1 && all_hex_digits(seg) {
        Some(PatternByte::Byte(hex_value(seg[0]) as u8))
    } else if seg.len() == 2 && all_hex_digits(seg) {
        Some(PatternByte::Byte((16 * hex_value(seg[0]) + hex_value(seg[1])) as u8))
    } else {
        None
    }
}

/// What is wrong with a segment that denotes no token.
pub open spec fn failure_reason(seg: Seq<char>) -> Seq<char> {
    if seg.len() == 0 {
        "empty segment"@
    } else if all_hex_digits(seg) {
        "more than two hex digits"@
    } else {
        "invalid hex digit"@
    }
}

/// The message of the error for an invalid segment.
pub open spec fn error_message(seg: Seq<char>) -> Seq<char> {
    "invalid token `"@ + seg + "`: "@ + failure_reason(seg)
}

/// The tokens of a list of segments, or the first segment that denotes none.
pub open spec fn compile_segments(segs: Seq<Seq<char>>) -> Result<Seq<PatternByte>, Seq<char>>
    decreases segs.len(),
{
    if segs.len() == 0 {
        Ok(seq![])
    } else {
        match parse_token(segs[0]) {
            None => Err(segs[0]),
            Some(t) => match compile_segments(segs.drop_first()) {
                Ok(ts) => Ok(seq![t] + ts),
                Err(bad) => Err(bad),
            },
        }
    }
}

/// The tokens of pattern text `s`, or the first of its segments that denotes none.
pub open spec fn compile_text(s: Seq<char>) -> Result<Seq<PatternByte>, Seq<char>> {
    compile_segments(segments(s))
}

/// `done` followed by the tokens of `rest`, or the error of `rest`.
pub open spec fn prepend_tokens(
    done: Seq<PatternByte>,
    rest: Result<Seq<PatternByte>, Seq<char>>,
) -> Result<Seq<PatternByte>, Seq<char>> {
    match rest {
        Ok(ts) => Ok(done + ts),
        Err(bad) => Err(bad),
    }
}

/// A compiled pattern: an ordered sequence of tokens, fixed once built.
#[derive(Debug, PartialEq, Eq)]
pub struct Pattern {
    bytes: Vec<PatternByte>,
}

impl View for Pattern {
    type V = Seq<PatternByte>;

    closed spec fn view(&self) -> Seq<PatternByte> {
        self.bytes@
    }
}

/// What compiling text `s` must give: the tokens of its segments, or the
/// error that names the first segment that denotes no token.
pub open spec fn compiled_from(s: Seq<char>, r: Result<Pattern, Error>) -> bool {
    match compile_text(s) {
        Ok(ts) => r is Ok && r->Ok_0@ == ts,
        Err(bad) => r is Err && r->Err_0@ == error_message(bad),
    }
}

impl Pattern {
    /// The pattern with tokens `bytes`.
    pub fn new(bytes: Vec<PatternByte>) -> (r: Pattern)
        ensures
            r@ == bytes@,
    {
        Pattern { bytes }
    }

    /// The number of tokens.
    pub fn len(&self) -> (r: usize)
        ensures
            r == self@.len(),
    {
        self.bytes.len()
    }

    /// The tokens, in order.
    pub fn tokens(&self) -> (r: &[PatternByte])
        ensures
            r@ == self@,
    {
        self.bytes.as_slice()
    }

    /// Compiles pattern text: the text is split on runs of ASCII whitespace,
    /// and each segment, left to right, becomes one token. The first segment
    /// that is neither `?` nor one or two hexadecimal digits fails the whole
    /// compile. Text without segments gives the empty pattern.
    pub fn from_str(s: &str) -> (r: Result<Pattern, Error>)
        ensures
            compiled_from(s@, r),
    {
        let chars = chars_of(s);
        let spans = split_segments(&chars);
        let ghost segs = segments(s@);
        let mut bytes: Vec<PatternByte> = Vec::new();
        let mut j: usize = 0;
        assert(segs.skip(0) =~= segs);
        assert(bytes@ + seq![] =~= bytes@);
        while j < spans.len()
            invariant
                chars@ == s@,
                segs == segments(s@),
                segs == span_segments(chars@, spans@),
                forall|k: int| 0 <= k < spans@.len() ==> #[trigger] spans@[k].0 <= spans@[k].1 <= chars@.len(),
                j <= spans@.len(),
                compile_segments(segs) == prepend_tokens(bytes@, compile_segments(segs.skip(j as int))),
            decreases spans@.len() - j,
        {
            let (start, end) = spans[j];
            let seg = s.substring_char(start, end);
            assert(seg@ == segs[j as int]);
            let ghost rest = segs.skip(j as int);
            assert(rest[0] == segs[j as int]);
            assert(rest.drop_first() =~= segs.skip(j + 1));
            match PatternByte::from_str(seg) {
                Ok(t) => {
                    proof {
                        match compile_segments(segs.skip(j + 1)) {
                            Ok(ts) => {
                                assert(bytes@ + (seq![t] + ts) =~= bytes@.push(t) + ts);
                            },
                            Err(_) => {},
                        }
                    }
                    bytes.push(t);
                },
                Err(e) => {
                    return Err(e);
                },
            }
            j = j + 1;
        }
        assert(segs.skip(j as int) =~= seq![]);
        assert(bytes@ + seq![] =~= bytes@);
        Ok(Pattern::new(bytes))
    }
}

impl PatternByte {
    /// Whether this token accepts byte `b`.
    pub fn matches(&self, b: u8) -> (r: bool)
        ensures
            r == token_matches(*self, b),
    {
        match self {
            PatternByte::Byte(v) => *v == b,
            PatternByte::Any => true,
        }
    }
}

impl PatternByte {
    /// The token that segment `seg` denotes: `?` is a wildcard, and one or two
    /// hexadecimal digits, in either case, a fixed byte.
    pub fn from_str(seg: &str) -> (r: Result<PatternByte, Error>)
        ensures
            match parse_token(seg@) {
                Some(t) => r == Ok::<PatternByte, Error>(t),
                None => r is Err && r->Err_0@ == error_message(seg@),
            },
    {
        let chars = chars_of(seg);
        if chars.len() == 1 {
            let c = chars[0];
            if c == '?' {
                assert(seg@ =~= seq!['?']);
                return Ok(PatternByte::Any);
            }
            assert(seg@ != seq!['?']) by {
                if seg@ == seq!['?'] {
                    assert(seg@[0] == '?');
                }
            }
            match hex_digit(c) {
                Some(v) => {
                    return Ok(PatternByte::Byte(v));
                },
                None => {},
            }
        } else if chars.len() == 2 {
            assert(seg@ != seq!['?']) by {
                if seg@ == seq!['?'] {
                    assert(seg@.len() == 1);
                }
            }
            match (hex_digit(chars[0]), hex_digit(chars[1])) {
                (Some(hi), Some(lo)) => {
                    assert(all_hex_digits(seg@)) by {
                        assert forall|i: int| 0 <= i < seg@.len() implies is_hex_digit(
                            #[trigger] seg@[i],
                        ) by {
                            assert(i == 0 || i == 1);
                        }
                    }
                    return Ok(PatternByte::Byte(16 * hi + lo));
                },
                _ => {},
            }
        } else {
            assert(seg@ != seq!['?']) by {
                if seg@ == seq!['?'] {
                    assert(seg@.len() == 1);
                }
            }
        }
        Err(invalid_token(seg))
    }
}

/// The value of `c` as a hexadecimal digit, if it is one.
fn hex_digit(c: char) -> (r: Option<u8>)
    ensures
        r == (if is_hex_digit(c) {
            Some(hex_value(c) as u8)
        } else {
            None
        }),
        r is Some ==> r->0 < 16,
{
    if '0' <= c && c <= '9' {
        Some((c as u32 - '0' as u32) as u8)
    } else if 'a' <= c && c <= 'f' {
        Some((c as u32 - 'a' as u32 + 10) as u8)
    } else if 'A' <= c && c <= 'F' {
        Some((c as u32 - 'A' as u32 + 10) as u8)
    } else {
        None
    }
}

/// The error for segment `seg`, which denotes no token.
fn invalid_token(seg: &str) -> (e: Error)
    ensures
        e@ == error_message(seg@),
{
    let chars = chars_of(seg);
    let mut all_hex = true;
    let mut i: usize = 0;
    while i < chars.len()
        invariant
            chars@ == seg@,
            i <= chars@.len(),
            all_hex == all_hex_digits(chars@.take(i as int)),
        decreases chars@.len() - i,
    {
        let ghost head = chars@.take(i as int);
        let ghost next = chars@.take(i + 1);
        assert(next =~= head.push(chars@[i as int]));
        assert(all_hex_digits(next) == (all_hex_digits(head) && is_hex_digit(chars@[i as int])))
            by {
            assert(next[i as int] == chars@[i as int]);
            assert(forall|j: int| 0 <= j < i ==> next[j] == #[trigger] head[j]);
        }
        all_hex = all_hex && hex_digit(chars[i]).is_some();
        i = i + 1;
    }
    assert(chars@.take(i as int) =~= chars@);
    let mut m = String::from_str("invalid token `");
    m.append(seg);
    m.append("`: ");
    if chars.len() == 0 {
        m.append("empty segment");
    } else if all_hex {
        m.append("more than two hex digits");
    } else {
        m.append("invalid hex digit");
    }
    Error::new(m)
}

/// The characters of `s`, in order.
fn chars_of(s: &str) -> (r: Vec<char>)
    ensures
        r@ == s@,
{
    let mut v: Vec<char> = Vec::new();
    for c in it: s.chars()
        invariant
            v@ == it.seq().take(it.index() as int),
    {
        v.push(c);
    }
    assert(v@ =~= s@);
    v
}

/// The segments that a list of spans marks out in `chars`.
pub open spec fn span_segments(chars: Seq<char>, spans: Seq<(usize, usize)>) -> Seq<Seq<char>> {
    spans.map_values(|p: (usize, usize)| chars.subrange(p.0 as int, p.1 as int))
}

fn is_separator_char(c: char) -> (r: bool)
    ensures
        r == is_separator(c),
{
    c == ' ' || c == '\t' || c == '\n' || c == '\x0C' || c == '\r'
}

/// The start and end of each segment of `chars`.
fn split_segments(chars: &Vec<char>) -> (r: Vec<(usize, usize)>)
    ensures
        forall|j: int| 0 <= j < r@.len() ==> #[trigger] r@[j].0 <= r@[j].1 <= chars@.len(),
        span_segments(chars@, r@) == segments(chars@),
{
    let mut spans: Vec<(usize, usize)> = Vec::new();
    let mut start: usize = 0;
    let mut in_word = false;
    let mut i: usize = 0;
    while i < chars.len()
        invariant
            i <= chars@.len(),
            in_word ==> start < i,
            in_word <==> (i > 0 && !is_separator(chars@[i - 1])),
            forall|j: int| 0 <= j < spans@.len() ==> #[trigger] spans@[j].0 <= spans@[j].1 <= i,
            segments(chars@.take(i as int)) == span_segments(chars@, spans@) + (if in_word {
                seq![chars@.subrange(start as int, i as int)]
            } else {
                seq![]
            }),
        decreases chars@.len() - i,
    {
        let c = chars[i];
        let ghost prefix = chars@.take(i + 1);
        assert(prefix.drop_last() =~= chars@.take(i as int));
        assert(prefix.last() == c);
        if is_separator_char(c) {
            if in_word {
                assert(span_segments(chars@, spans@.push((start, i))) =~= span_segments(
                    chars@,
                    spans@,
                ).push(chars@.subrange(start as int, i as int)));
                spans.push((start, i));
                in_word = false;
            } else {
                assert(span_segments(chars@, spans@) + seq![] =~= span_segments(chars@, spans@));
            }
        } else if in_word {
            assert(prefix[prefix.len() - 2] == chars@[i - 1]);
            let ghost init = span_segments(chars@, spans@) + seq![
                chars@.subrange(start as int, i as int),
            ];
            assert(init.drop_last() =~= span_segments(chars@, spans@));
            assert(init.last().push(c) =~= chars@.subrange(start as int, i + 1));
        } else {
            assert(i > 0 ==> prefix[prefix.len() - 2] == chars@[i - 1]);
            assert(span_segments(chars@, spans@) + seq![] =~= span_segments(chars@, spans@));
            assert(seq![c] =~= chars@.subrange(i as int, i + 1));
            start = i;
            in_word = true;
        }
        i = i + 1;
    }
    assert(chars@.take(i as int) =~= chars@);
    if in_word {
        assert(span_segments(chars@, spans@.push((start, i))) =~= span_segments(
            chars@,
            spans@,
        ).push(chars@.subrange(start as int, i as int)));
        spans.push((start, i));
    } else {
        assert(span_segments(chars@, spans@) + seq![] =~= span_segments(chars@, spans@));
    }
    spans
}

} // verus!
