//! Directive parsing: raw path segments become a normalized, range-checked
//! transformation specification.
//!
//! The one subtle policy here is the smart/alignment tie-break: the smart
//! flag only takes effect when neither alignment segment was supplied, and an
//! explicit alignment always wins over the flag.

use vstd::prelude::*;

verus! {

/// Horizontal anchor of the crop window.
#[derive(Clone, Copy, Debug, PartialEq, Eq, Structural)]
pub enum HAlign {
    Left,
    Center,
    Right,
}

/// Vertical anchor of the crop window.
#[derive(Clone, Copy, Debug, PartialEq, Eq, Structural)]
pub enum VAlign {
    Top,
    Middle,
    Bottom,
}

/// The anchor used to pick which part of the resized image survives
/// cropping, plus the content-aware ("smart") flag.  While smart cropping is
/// unimplemented the flag never carries a non-default anchor.
#[derive(Clone, Copy, Debug, PartialEq, Eq, Structural)]
pub struct Alignment {
    pub halign: HAlign,
    pub valign: VAlign,
    pub smart: bool,
}

/// Mirror flags derived from the signs of the raw width and height.
#[derive(Clone, Copy, Debug, PartialEq, Eq, Structural)]
pub struct FlipImage {
    pub horizontal: bool,
    pub vertical: bool,
}

/// Raw request directives as extracted from the path, before normalization.
#[derive(Debug)]
pub struct UrlPropsController {
    pub key: String,
    pub width: i32,
    pub height: i32,
    pub smart: String,
    pub halign: String,
    pub valign: String,
    pub filename: String,
}

/// The normalized transformation specification built once per request.
#[derive(Debug)]
pub struct UrlProps {
    pub width: i32,
    pub height: i32,
    pub filename: String,
    pub alignment: Alignment,
    pub flip: FlipImage,
}

/// Why a request's directives were rejected.
#[derive(Clone, Copy, Debug, PartialEq, Eq, Structural)]
pub enum ParseError {
    /// The path does not have the expected `/{token}/{directives}` shape,
    /// or names no file at all.
    MalformedPath,
    /// A dimension is not a decimal integer whose magnitude fits an `i32`.
    InvalidDimension,
    /// Both target dimensions are zero: nothing to derive a size from.
    UnderspecifiedSize,
    /// A non-empty alignment segment outside the enumerated sets.
    InvalidAlignment,
}

impl UrlProps {
    /// Invariant established by parsing: non-negative dimensions, not both
    /// zero, a file to act on, and the smart flag only ever paired with the
    /// default anchor.
    pub open spec fn wf(self) -> bool {
        &&& self.width >= 0
        &&& self.height >= 0
        &&& !(self.width == 0 && self.height == 0)
        &&& self.filename@.len() > 0
        &&& (self.alignment.smart ==> self.alignment.halign == HAlign::Center
            && self.alignment.valign == VAlign::Middle)
    }
}

impl HAlign {
    /// The path token that selects this anchor.
    pub open spec fn spec_name(self) -> Seq<char> {
        match self {
            HAlign::Left => "left"@,
            HAlign::Center => "center"@,
            HAlign::Right => "right"@,
        }
    }

    /// The path token that selects this anchor.
    pub fn name(&self) -> (r: String)
        ensures
            r@ == self.spec_name(),
    {
        match self {
            HAlign::Left => String::from_str("left"),
            HAlign::Center => String::from_str("center"),
            HAlign::Right => String::from_str("right"),
        }
    }
}

impl VAlign {
    /// The path token that selects this anchor.
    pub open spec fn spec_name(self) -> Seq<char> {
        match self {
            VAlign::Top => "top"@,
            VAlign::Middle => "middle"@,
            VAlign::Bottom => "bottom"@,
        }
    }

    /// The path token that selects this anchor.
    pub fn name(&self) -> (r: String)
        ensures
            r@ == self.spec_name(),
    {
        match self {
            VAlign::Top => String::from_str("top"),
            VAlign::Middle => String::from_str("middle"),
            VAlign::Bottom => String::from_str("bottom"),
        }
    }
}

/// Index of the first occurrence of `c` in `s` at or after `from`, or the
/// length of `s` if there is none.
pub open spec fn spec_find_char(s: Seq<char>, from: int, c: char) -> int
    recommends
        0 <= from,
    decreases s.len() - from,
{
    if from < 0 || from >= s.len() {
        s.len() as int
    } else if s[from] == c {
        from
    } else {
        spec_find_char(s, from + 1, c)
    }
}

/// No occurrence of `c` lies before the index the search reports.
pub proof fn lemma_find_char_no_hit(s: Seq<char>, from: int, c: char)
    requires
        0 <= from,
    ensures
        forall|j: int| from <= j < spec_find_char(s, from, c) ==> s[j] != c,
    decreases s.len() - from,
{
    if from < s.len() && s[from] != c {
        lemma_find_char_no_hit(s, from + 1, c);
    }
}

/// Index of the first occurrence of `c` in `s` at or after `from`, or the
/// character length of `s` if there is none.
pub fn find_char(s: &str, from: usize, c: char) -> (r: usize)
    requires
        from <= s@.len(),
    ensures
        r == spec_find_char(s@, from as int, c),
        from <= r <= s@.len(),
        r < s@.len() ==> s@[r as int] == c,
{
    let n = s.unicode_len();
    let mut i = from;
    while i < n
        invariant
            from <= i <= n,
            n == s@.len(),
            spec_find_char(s@, from as int, c) == spec_find_char(s@, i as int, c),
        decreases n - i,
    {
        if s.get_char(i) == c {
            return i;
        }
        i = i + 1;
    }
    n
}

/// `s` with every `/` removed, other characters kept in order.
pub open spec fn strip_slash(s: Seq<char>) -> Seq<char>
    decreases s.len(),
{
    if s.len() == 0 {
        Seq::empty()
    } else if s[0] == '/' {
        strip_slash(s.drop_first())
    } else {
        seq![s[0]] + strip_slash(s.drop_first())
    }
}

/// Stripping slashes from a slash-free sequence changes nothing.
pub proof fn lemma_strip_slash_id(s: Seq<char>)
    requires
        forall|j: int| 0 <= j < s.len() ==> s[j] != '/',
    ensures
        strip_slash(s) == s,
    decreases s.len(),
{
    if s.len() > 0 {
        lemma_strip_slash_id(s.drop_first());
        assert(seq![s[0]] + s.drop_first() =~= s);
    }
}

/// The horizontal anchor a stripped alignment segment selects: the default
/// for an empty segment, an error for any other token outside the set.
pub open spec fn spec_parse_halign(s: Seq<char>) -> Result<HAlign, ParseError> {
    if s.len() == 0 {
        Ok(HAlign::Center)
    } else if s == seq!['l', 'e', 'f', 't'] {
        Ok(HAlign::Left)
    } else if s == seq!['c', 'e', 'n', 't', 'e', 'r'] {
        Ok(HAlign::Center)
    } else if s == seq!['r', 'i', 'g', 'h', 't'] {
        Ok(HAlign::Right)
    } else {
        Err(ParseError::InvalidAlignment)
    }
}

/// The vertical anchor a stripped alignment segment selects.
pub open spec fn spec_parse_valign(s: Seq<char>) -> Result<VAlign, ParseError> {
    if s.len() == 0 {
        Ok(VAlign::Middle)
    } else if s == seq!['t', 'o', 'p'] {
        Ok(VAlign::Top)
    } else if s == seq!['m', 'i', 'd', 'd', 'l', 'e'] {
        Ok(VAlign::Middle)
    } else if s == seq!['b', 'o', 't', 't', 'o', 'm'] {
        Ok(VAlign::Bottom)
    } else {
        Err(ParseError::InvalidAlignment)
    }
}

/// The token that raises the smart flag.
pub open spec fn smart_token() -> Seq<char> {
    seq!['s', 'm', 'a', 'r', 't']
}

/// The smart flag as parsed from the raw segments: the flag token must be
/// present and neither alignment segment may have been supplied, even as a
/// bare `/`.
pub open spec fn spec_smart(smart: Seq<char>, halign: Seq<char>, valign: Seq<char>) -> bool {
    &&& strip_slash(smart) == smart_token()
    &&& halign.len() == 0
    &&& valign.len() == 0
}

/// The magnitude stored for a raw signed dimension.
pub open spec fn spec_abs(v: int) -> int {
    if v < 0 {
        -v
    } else {
        v
    }
}

/// Whether raw directives with these values are accepted.
pub open spec fn build_accepts(
    width: int,
    height: int,
    halign: Seq<char>,
    valign: Seq<char>,
    filename: Seq<char>,
) -> bool {
    &&& width != i32::MIN
    &&& height != i32::MIN
    &&& !(width == 0 && height == 0)
    &&& spec_parse_halign(strip_slash(halign)) is Ok
    &&& spec_parse_valign(strip_slash(valign)) is Ok
    &&& filename.len() > 0
}

/// The error reported for rejected directives, in the order checked; a
/// directive set that passes every check but names no file is malformed.
pub open spec fn build_error(
    width: int,
    height: int,
    halign: Seq<char>,
    valign: Seq<char>,
) -> ParseError {
    if width == i32::MIN || height == i32::MIN {
        ParseError::InvalidDimension
    } else if width == 0 && height == 0 {
        ParseError::UnderspecifiedSize
    } else if spec_parse_halign(strip_slash(halign)) is Err {
        ParseError::InvalidAlignment
    } else if spec_parse_valign(strip_slash(valign)) is Err {
        ParseError::InvalidAlignment
    } else {
        ParseError::MalformedPath
    }
}

/// `s` with every `/` removed, as an indexable character vector.
pub(crate) fn strip_slashes(s: &str) -> (r: Vec<char>)
    ensures
        r@ == strip_slash(s@),
{
    let n = s.unicode_len();
    let mut r: Vec<char> = Vec::new();
    assert(s@.skip(0) == s@);
    for i in 0..n
        invariant
            n == s@.len(),
            strip_slash(s@) == r@ + strip_slash(s@.skip(i as int)),
    {
        let c = s.get_char(i);
        assert(s@.skip(i as int).drop_first() =~= s@.skip(i as int + 1));
        if c != '/' {
            r.push(c);
            assert(r@ + strip_slash(s@.skip(i as int + 1)) =~= strip_slash(s@));
        }
    }
    assert(s@.skip(n as int) =~= Seq::empty());
    assert(r@ =~= strip_slash(s@));
    r
}

/// The horizontal anchor a stripped segment selects.
pub(crate) fn match_halign(v: &Vec<char>) -> (r: Result<HAlign, ParseError>)
    ensures
        r == spec_parse_halign(v@),
{
    if v.len() == 0 {
        Ok(HAlign::Center)
    } else if v.len() == 4 && v[0] == 'l' && v[1] == 'e' && v[2] == 'f' && v[3] == 't' {
        assert(v@ =~= seq!['l', 'e', 'f', 't']);
        Ok(HAlign::Left)
    } else if v.len() == 6 && v[0] == 'c' && v[1] == 'e' && v[2] == 'n' && v[3] == 't' && v[4]
        == 'e' && v[5] == 'r' {
        assert(v@ =~= seq!['c', 'e', 'n', 't', 'e', 'r']);
        Ok(HAlign::Center)
    } else if v.len() == 5 && v[0] == 'r' && v[1] == 'i' && v[2] == 'g' && v[3] == 'h' && v[4]
        == 't' {
        assert(v@ =~= seq!['r', 'i', 'g', 'h', 't']);
        Ok(HAlign::Right)
    } else {
        Err(ParseError::InvalidAlignment)
    }
}

/// The vertical anchor a stripped segment selects.
pub(crate) fn match_valign(v: &Vec<char>) -> (r: Result<VAlign, ParseError>)
    ensures
        r == spec_parse_valign(v@),
{
    if v.len() == 0 {
        Ok(VAlign::Middle)
    } else if v.len() == 3 && v[0] == 't' && v[1] == 'o' && v[2] == 'p' {
        assert(v@ =~= seq!['t', 'o', 'p']);
        Ok(VAlign::Top)
    } else if v.len() == 6 && v[0] == 'm' && v[1] == 'i' && v[2] == 'd' && v[3] == 'd' && v[4]
        == 'l' && v[5] == 'e' {
        assert(v@ =~= seq!['m', 'i', 'd', 'd', 'l', 'e']);
        Ok(VAlign::Middle)
    } else if v.len() == 6 && v[0] == 'b' && v[1] == 'o' && v[2] == 't' && v[3] == 't' && v[4]
        == 'o' && v[5] == 'm' {
        assert(v@ =~= seq!['b', 'o', 't', 't', 'o', 'm']);
        Ok(VAlign::Bottom)
    } else {
        Err(ParseError::InvalidAlignment)
    }
}

/// Whether a stripped segment is the smart flag token.
pub(crate) fn match_smart(v: &Vec<char>) -> (r: bool)
    ensures
        r == (v@ == smart_token()),
{
    if v.len() == 5 && v[0] == 's' && v[1] == 'm' && v[2] == 'a' && v[3] == 'r' && v[4] == 't' {
        assert(v@ =~= smart_token());
        true
    } else {
        false
    }
}

/// Whether `c` is a decimal digit.
pub open spec fn is_digit(c: char) -> bool {
    48 <= c as u32 <= 57
}

/// Every character of `s` is a decimal digit.
pub open spec fn all_digits(s: Seq<char>) -> bool {
    forall|i: int| 0 <= i < s.len() ==> #[trigger] is_digit(s[i])
}

/// The value of a sequence of decimal digits, most significant first.
pub open spec fn digits_value(s: Seq<char>) -> int
    decreases s.len(),
{
    if s.len() == 0 {
        0
    } else {
        digits_value(s.drop_last()) * 10 + (s.last() as u32 - 48)
    }
}

/// The digit part of a raw signed dimension.
pub open spec fn spec_dim_digits(s: Seq<char>) -> Seq<char> {
    if s.len() > 0 && s[0] == '-' {
        s.subrange(1, s.len() as int)
    } else {
        s
    }
}

/// Whether a raw dimension is a signed decimal integer whose magnitude
/// fits an `i32` (the magnitude is what gets stored, so `i32::MIN` does
/// not qualify).
pub open spec fn spec_dim_accepts(s: Seq<char>) -> bool {
    &&& spec_dim_digits(s).len() > 0
    &&& all_digits(spec_dim_digits(s))
    &&& digits_value(spec_dim_digits(s)) <= i32::MAX
}

/// The signed value of a raw dimension.
pub open spec fn spec_dim_value(s: Seq<char>) -> int {
    if s.len() > 0 && s[0] == '-' {
        -digits_value(spec_dim_digits(s))
    } else {
        digits_value(spec_dim_digits(s))
    }
}

/// A digit sequence has a non-negative value.
proof fn lemma_digits_value_nonneg(s: Seq<char>)
    requires
        all_digits(s),
    ensures
        digits_value(s) >= 0,
    decreases s.len(),
{
    if s.len() > 0 {
        assert(all_digits(s.drop_last())) by {
            assert(forall|i: int| 0 <= i < s.len() - 1 ==> s.drop_last()[i] == s[i]);
        }
        lemma_digits_value_nonneg(s.drop_last());
        assert(is_digit(s.last()));
    }
}

/// A prefix of a digit sequence never exceeds the whole sequence's value.
proof fn lemma_digits_value_prefix_le(s: Seq<char>, j: int)
    requires
        all_digits(s),
        0 <= j <= s.len(),
    ensures
        digits_value(s.take(j)) <= digits_value(s),
    decreases s.len() - j,
{
    if j == s.len() {
        assert(s.take(j) =~= s);
    } else {
        assert(all_digits(s.take(j))) by {
            assert(forall|i: int| 0 <= i < j ==> s.take(j)[i] == s[i]);
        }
        lemma_digits_value_nonneg(s.take(j));
        assert(s.take(j + 1).drop_last() =~= s.take(j));
        assert(s.take(j + 1).last() == s[j]);
        assert(is_digit(s[j]));
        assert(digits_value(s.take(j + 1)) >= digits_value(s.take(j)));
        lemma_digits_value_prefix_le(s, j + 1);
    }
}

/// Parse one raw dimension: an optional `-` sign and decimal digits whose
/// value fits an `i32`.  Anything else, including a magnitude beyond
/// `i32::MAX`, is an invalid dimension.
pub fn parse_dimension(s: &str) -> (r: Result<i32, ParseError>)
    ensures
        r is Ok <==> spec_dim_accepts(s@),
        r is Ok ==> r->Ok_0 == spec_dim_value(s@),
        r is Err ==> r->Err_0 == ParseError::InvalidDimension,
{
    let n = s.unicode_len();
    let neg = n > 0 && s.get_char(0) == '-';
    let start: usize = if neg {
        1
    } else {
        0
    };
    let ghost digits = spec_dim_digits(s@);
    proof {
        if !neg {
            assert(digits =~= s@);
        }
    }
    if start == n {
        return Err(ParseError::InvalidDimension);
    }
    let mut acc: u64 = 0;
    let mut i = start;
    while i < n
        invariant
            start <= i <= n,
            n == s@.len(),
            start == 1 <==> (n > 0 && s@[0] == '-'),
            start == 0 || start == 1,
            start < n,
            digits == spec_dim_digits(s@),
            digits.len() == n - start,
            forall|j: int| 0 <= j < digits.len() ==> digits[j] == s@[start + j],
            all_digits(digits.take(i - start)),
            acc == digits_value(digits.take(i - start)),
            acc <= 0x7fff_ffff,
        decreases n - i,
    {
        let c = s.get_char(i);
        let cv = c as u32;
        if cv < 48 || cv > 57 {
            proof {
                assert(digits[i - start] == s@[i as int]);
                assert(!is_digit(digits[i - start]));
            }
            return Err(ParseError::InvalidDimension);
        }
        let d = (cv - 48) as u64;
        proof {
            assert(digits.take(i - start + 1).drop_last() =~= digits.take(i - start));
            assert(digits.take(i - start + 1).last() == digits[i - start]);
            assert(digits[i - start] == s@[i as int]);
            assert(all_digits(digits.take(i - start + 1))) by {
                assert(forall|j: int| 0 <= j < i - start + 1 ==> digits.take(i - start + 1)[j]
                    == digits[j]);
            }
        }
        acc = acc * 10 + d;
        if acc > 0x7fff_ffff {
            proof {
                if all_digits(digits) && digits_value(digits) <= i32::MAX {
                    lemma_digits_value_prefix_le(digits, i - start + 1);
                }
            }
            return Err(ParseError::InvalidDimension);
        }
        i = i + 1;
    }
    assert(digits.take(n - start) =~= digits);
    let v = acc as i32;
    if neg {
        Ok(-v)
    } else {
        Ok(v)
    }
}

/// Normalize raw directives into a transformation specification.
///
/// Signs of the raw dimensions fold into the flip flags and the magnitudes
/// are stored; a dimension whose magnitude is not representable is rejected
/// rather than folded.  Alignment segments are stripped of slashes, default
/// when empty and are fatal when outside the enumerated sets.  The smart
/// flag holds only when no alignment segment was supplied at all.
pub fn build_url_props(uri: UrlPropsController) -> (r: Result<UrlProps, ParseError>)
    ensures
        r is Ok <==> build_accepts(
            uri.width as int,
            uri.height as int,
            uri.halign@,
            uri.valign@,
            uri.filename@,
        ),
        r is Err ==> r->Err_0 == build_error(
            uri.width as int,
            uri.height as int,
            uri.halign@,
            uri.valign@,
        ),
        r is Ok ==> {
            let p = r->Ok_0;
            &&& p.width == spec_abs(uri.width as int)
            &&& p.height == spec_abs(uri.height as int)
            &&& p.filename@ == uri.filename@
            &&& p.alignment.halign == spec_parse_halign(strip_slash(uri.halign@))->Ok_0
            &&& p.alignment.valign == spec_parse_valign(strip_slash(uri.valign@))->Ok_0
            &&& p.alignment.smart == spec_smart(uri.smart@, uri.halign@, uri.valign@)
            &&& p.flip.horizontal == (uri.width < 0)
            &&& p.flip.vertical == (uri.height < 0)
            &&& p.wf()
        },
{
    if uri.width == i32::MIN || uri.height == i32::MIN {
        return Err(ParseError::InvalidDimension);
    }
    if uri.width == 0 && uri.height == 0 {
        return Err(ParseError::UnderspecifiedSize);
    }
    let halign_raw_empty = uri.halign.as_str().is_empty();
    let valign_raw_empty = uri.valign.as_str().is_empty();
    let halign = match match_halign(&strip_slashes(uri.halign.as_str())) {
        Ok(h) => h,
        Err(e) => {
            return Err(e);
        },
    };
    let valign = match match_valign(&strip_slashes(uri.valign.as_str())) {
        Ok(v) => v,
        Err(e) => {
            return Err(e);
        },
    };
    if uri.filename.as_str().is_empty() {
        return Err(ParseError::MalformedPath);
    }
    let smart = match_smart(&strip_slashes(uri.smart.as_str())) && halign_raw_empty
        && valign_raw_empty;
    proof {
        if smart {
            assert(uri.halign@.len() == 0);
            assert(strip_slash(uri.halign@) =~= Seq::empty());
            assert(uri.valign@.len() == 0);
            assert(strip_slash(uri.valign@) =~= Seq::empty());
        }
    }
    let width = if uri.width < 0 {
        -uri.width
    } else {
        uri.width
    };
    let height = if uri.height < 0 {
        -uri.height
    } else {
        uri.height
    };
    Ok(
        UrlProps {
            width,
            height,
            filename: uri.filename,
            alignment: Alignment { halign, valign, smart },
            flip: FlipImage { horizontal: uri.width < 0, vertical: uri.height < 0 },
        },
    )
}

/// Explicit alignment always overrides the smart flag: the flag holds only
/// when both alignment segments were absent at parse time, and supplying
/// either one disables it regardless of the flag's presence.
pub proof fn lemma_alignment_overrides_smart(smart: Seq<char>, halign: Seq<char>, valign: Seq<char>)
    ensures
        spec_smart(smart, halign, valign) ==> halign.len() == 0 && valign.len() == 0,
        halign.len() > 0 || valign.len() > 0 ==> !spec_smart(smart, halign, valign),
{
}

} // verus!
