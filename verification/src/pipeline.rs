//! Pipeline orchestration: verify the token, parse the directives and plan
//! the geometry.
//!
//! The host program performs the surrounding I/O — fetching the source
//! image, running the pixel operations and framing the response — and feeds
//! this module plain values: the request path, the configured settings and
//! the fetched image's actual pixel dimensions (a client-declared source
//! size is never trusted).

use vstd::prelude::*;

use crate::calc::{
    aspect_derivation, cover_height, cover_width, crop_offset_h, crop_offset_v, crop_rect,
    derived_dimension, get_new_size_respecting_aspect_ratio, Rect, Size,
};
use crate::security::{is_valid_key, spec_valid_key};
use crate::settings::Settings;
use crate::url_props::{
    build_accepts, build_error, build_url_props, find_char, lemma_find_char_no_hit,
    lemma_strip_slash_id, match_halign, match_smart, match_valign, parse_dimension, smart_token,
    spec_abs, spec_dim_accepts, spec_dim_value, spec_find_char, spec_parse_halign,
    spec_parse_valign, spec_smart, strip_slash, strip_slashes, ParseError, UrlProps,
    UrlPropsController,
};

verus! {

/// Why a request terminated without a transformed image.  Every failure is
/// terminal for its request; nothing is retried.
#[derive(Clone, Copy, Debug, PartialEq, Eq, Structural)]
pub enum PipelineError {
    /// The supplied token does not sign the request's directives.
    SignatureInvalid,
    /// The directives themselves are unusable; the payload says why.
    BadRequest(ParseError),
    /// The source image could not be retrieved or decoded.
    SourceUnavailable,
    /// A computed crop window escaped the resized bounds; a defect, not a
    /// user error, and proved impossible for plans computed here.
    GeometryViolation,
    /// The encoder rejected the final buffer.
    EncodeFailure,
}

/// The output of the geometry engine for one request: resize the source to
/// `resize_to`, then keep `crop`.
#[derive(Clone, Copy, Debug, PartialEq, Eq, Structural)]
pub struct GeometryPlan {
    pub resize_to: Size,
    pub crop: Rect,
}

impl GeometryPlan {
    /// The core correctness invariant of the whole pipeline: the crop
    /// window lies fully inside the resized image, so the downstream crop
    /// call can never read out of bounds.
    pub open spec fn contained(self) -> bool {
        &&& 0 <= self.crop.x
        &&& 0 <= self.crop.y
        &&& self.crop.x + self.crop.width <= self.resize_to.width
        &&& self.crop.y + self.crop.height <= self.resize_to.height
    }
}

/// The requested width after deriving a zero width from the height at the
/// source's aspect ratio.
pub open spec fn spec_target_width(props: UrlProps, source: Size) -> int {
    if props.width == 0 {
        derived_dimension(props.height as int, source.width as int, source.height as int)
    } else {
        props.width as int
    }
}

/// The requested height after deriving a zero height from the width at the
/// source's aspect ratio.
pub open spec fn spec_target_height(props: UrlProps, source: Size) -> int {
    if props.height == 0 {
        derived_dimension(props.width as int, source.height as int, source.width as int)
    } else {
        props.height as int
    }
}

/// Whether the derived target and its cover size stay representable.  A
/// request outside these bounds is rejected rather than planned; the bound
/// is this implementation's explicit guard against unbounded dimensions.
pub open spec fn geometry_accepts(props: UrlProps, source: Size) -> bool {
    let tw = spec_target_width(props, source);
    let th = spec_target_height(props, source);
    &&& 1 <= tw <= i32::MAX
    &&& 1 <= th <= i32::MAX
    &&& cover_width(source.width as int, source.height as int, tw, th) <= i32::MAX
    &&& cover_height(source.width as int, source.height as int, tw, th) <= i32::MAX
}

/// Compute the geometry plan for a parsed request against the source
/// image's actual dimensions: derive a missing target dimension, resize to
/// cover, and anchor the crop window.  The returned plan always satisfies
/// the containment invariant.
pub fn compute_geometry_plan(props: &UrlProps, source: Size) -> (r: Result<
    GeometryPlan,
    PipelineError,
>)
    requires
        source.positive(),
        props.wf(),
    ensures
        r is Ok <==> geometry_accepts(*props, source),
        r is Err ==> r->Err_0 == PipelineError::BadRequest(ParseError::InvalidDimension),
        r is Ok ==> {
            let tw = spec_target_width(*props, source);
            let th = spec_target_height(*props, source);
            let p = r->Ok_0;
            &&& p.resize_to.width == cover_width(
                source.width as int,
                source.height as int,
                tw,
                th,
            )
            &&& p.resize_to.height == cover_height(
                source.width as int,
                source.height as int,
                tw,
                th,
            )
            &&& p.crop.width == tw
            &&& p.crop.height == th
            &&& p.crop.x == crop_offset_h(props.alignment.halign, p.resize_to.width as int, tw)
            &&& p.crop.y == crop_offset_v(props.alignment.valign, p.resize_to.height as int, th)
            &&& p.contained()
        },
{
    let sw64 = source.width as u64;
    let sh64 = source.height as u64;
    proof {
        assert(sw64 * (props.height as u64) <= 0x7fff_ffff * 0x7fff_ffff) by (nonlinear_arith)
            requires
                sw64 <= 0x7fff_ffff,
                props.height <= 0x7fff_ffff,
                props.height >= 0,
        ;
        assert(sh64 * (props.width as u64) <= 0x7fff_ffff * 0x7fff_ffff) by (nonlinear_arith)
            requires
                sh64 <= 0x7fff_ffff,
                props.width <= 0x7fff_ffff,
                props.width >= 0,
        ;
    }
    let tw: i32 = if props.width == 0 {
        let d = (sw64 * (props.height as u64)) / sh64;
        if d == 0 || d > 0x7fff_ffff {
            return Err(PipelineError::BadRequest(ParseError::InvalidDimension));
        }
        aspect_derivation(props.height, source.width, source.height)
    } else {
        props.width
    };
    let th: i32 = if props.height == 0 {
        let d = (sh64 * (props.width as u64)) / sw64;
        if d == 0 || d > 0x7fff_ffff {
            return Err(PipelineError::BadRequest(ParseError::InvalidDimension));
        }
        aspect_derivation(props.width, source.height, source.width)
    } else {
        props.height
    };
    let tw64 = tw as u64;
    let th64 = th as u64;
    proof {
        assert(sw64 * th64 <= 0x7fff_ffff * 0x7fff_ffff) by (nonlinear_arith)
            requires
                sw64 <= 0x7fff_ffff,
                th64 <= 0x7fff_ffff,
        ;
        assert(tw64 * sh64 <= 0x7fff_ffff * 0x7fff_ffff) by (nonlinear_arith)
            requires
                tw64 <= 0x7fff_ffff,
                sh64 <= 0x7fff_ffff,
        ;
        assert(sh64 * tw64 <= 0x7fff_ffff * 0x7fff_ffff) by (nonlinear_arith)
            requires
                sh64 <= 0x7fff_ffff,
                tw64 <= 0x7fff_ffff,
        ;
    }
    if sw64 * th64 < tw64 * sh64 {
        let derived = (sh64 * tw64) / sw64;
        if derived > 0x7fff_ffff {
            return Err(PipelineError::BadRequest(ParseError::InvalidDimension));
        }
    } else {
        let derived = (sw64 * th64) / sh64;
        if derived > 0x7fff_ffff {
            return Err(PipelineError::BadRequest(ParseError::InvalidDimension));
        }
    }
    let target = Size { width: tw, height: th };
    let resize_to = get_new_size_respecting_aspect_ratio(source, target);
    let crop = crop_rect(resize_to, target, &props.alignment);
    Ok(GeometryPlan { resize_to, crop })
}

/// Index of the first slash of `path`.
pub open spec fn spec_i1(path: Seq<char>) -> int {
    spec_find_char(path, 0, '/')
}

/// Index of the second slash of `path`.
pub open spec fn spec_i2(path: Seq<char>) -> int {
    spec_find_char(path, spec_i1(path) + 1, '/')
}

/// Whether `path` has the `/{token}/{directives}` shape: at least three
/// `/`-separated segments.
pub open spec fn spec_shape_ok(path: Seq<char>) -> bool {
    spec_i2(path) < path.len()
}

/// The signed message of `path`: everything after the second slash.
pub open spec fn spec_message(path: Seq<char>) -> Seq<char> {
    path.subrange(spec_i2(path) + 1, path.len() as int)
}

/// End of the segment that starts after the slash at `pos` (use `-1` for
/// the leading segment): the next slash, or the end of `rest`.
pub open spec fn seg_end(rest: Seq<char>, pos: int) -> int {
    spec_find_char(rest, pos + 1, '/')
}

/// The segment between the slash at `pos` and the following slash.
pub open spec fn segment(rest: Seq<char>, pos: int) -> Seq<char> {
    rest.subrange(pos + 1, seg_end(rest, pos))
}

/// End of the leading dimensions segment of the message.
pub open spec fn dims_end(rest: Seq<char>) -> int {
    seg_end(rest, -1)
}

/// Position of the `x` separating width from height.
pub open spec fn x_pos(rest: Seq<char>) -> int {
    spec_find_char(rest, 0, 'x')
}

/// Whether the leading segment splits into `{width}x{height}`.
pub open spec fn dims_split_ok(rest: Seq<char>) -> bool {
    x_pos(rest) < dims_end(rest)
}

/// The raw width directive.
pub open spec fn spec_width_str(rest: Seq<char>) -> Seq<char> {
    rest.subrange(0, x_pos(rest))
}

/// The raw height directive.
pub open spec fn spec_height_str(rest: Seq<char>) -> Seq<char> {
    rest.subrange(x_pos(rest) + 1, dims_end(rest))
}

/// Whether the segment after the dimensions is the smart flag.
pub open spec fn smart_present(rest: Seq<char>) -> bool {
    dims_end(rest) < rest.len() && segment(rest, dims_end(rest)) == smart_token()
}

/// Scan position after the optional smart segment.
pub open spec fn pos_after_smart(rest: Seq<char>) -> int {
    if smart_present(rest) {
        seg_end(rest, dims_end(rest))
    } else {
        dims_end(rest)
    }
}

/// The raw smart directive: the flag segment, or empty when absent.
pub open spec fn spec_smart_raw(rest: Seq<char>) -> Seq<char> {
    if smart_present(rest) {
        segment(rest, dims_end(rest))
    } else {
        Seq::empty()
    }
}

/// Whether `s` is one of the horizontal anchor tokens.
pub open spec fn spec_is_halign_word(s: Seq<char>) -> bool {
    s.len() > 0 && spec_parse_halign(s) is Ok
}

/// Whether the next segment is a horizontal anchor token.
pub open spec fn halign_present(rest: Seq<char>) -> bool {
    pos_after_smart(rest) < rest.len() && spec_is_halign_word(segment(rest, pos_after_smart(rest)))
}

/// Scan position after the optional horizontal alignment segment.
pub open spec fn pos_after_halign(rest: Seq<char>) -> int {
    if halign_present(rest) {
        seg_end(rest, pos_after_smart(rest))
    } else {
        pos_after_smart(rest)
    }
}

/// The raw horizontal alignment directive, or empty when absent.
pub open spec fn spec_halign_raw(rest: Seq<char>) -> Seq<char> {
    if halign_present(rest) {
        segment(rest, pos_after_smart(rest))
    } else {
        Seq::empty()
    }
}

/// Whether `s` is one of the vertical anchor tokens.
pub open spec fn spec_is_valign_word(s: Seq<char>) -> bool {
    s.len() > 0 && spec_parse_valign(s) is Ok
}

/// Whether the next segment is a vertical anchor token.
pub open spec fn valign_present(rest: Seq<char>) -> bool {
    pos_after_halign(rest) < rest.len() && spec_is_valign_word(
        segment(rest, pos_after_halign(rest)),
    )
}

/// Scan position after the optional vertical alignment segment.
pub open spec fn pos_after_valign(rest: Seq<char>) -> int {
    if valign_present(rest) {
        seg_end(rest, pos_after_halign(rest))
    } else {
        pos_after_halign(rest)
    }
}

/// The raw vertical alignment directive, or empty when absent.
pub open spec fn spec_valign_raw(rest: Seq<char>) -> Seq<char> {
    if valign_present(rest) {
        segment(rest, pos_after_halign(rest))
    } else {
        Seq::empty()
    }
}

/// Everything after the recognized directives, taken verbatim as the
/// filename; empty when nothing follows them.
pub open spec fn spec_filename(rest: Seq<char>) -> Seq<char> {
    if pos_after_valign(rest) < rest.len() {
        rest.subrange(pos_after_valign(rest) + 1, rest.len() as int)
    } else {
        Seq::empty()
    }
}

/// Whether a request path is accepted end to end: shape, signature and
/// directives.
pub open spec fn spec_plan_accepts(path: Seq<char>, secret: Seq<char>) -> bool {
    let rest = spec_message(path);
    &&& spec_shape_ok(path)
    &&& spec_valid_key(path, secret)
    &&& dims_split_ok(rest)
    &&& spec_dim_accepts(spec_width_str(rest))
    &&& spec_dim_accepts(spec_height_str(rest))
    &&& build_accepts(
        spec_dim_value(spec_width_str(rest)),
        spec_dim_value(spec_height_str(rest)),
        spec_halign_raw(rest),
        spec_valign_raw(rest),
        spec_filename(rest),
    )
}

/// The error a rejected request reports, in the order checked: shape, then
/// signature, then directives.
pub open spec fn spec_plan_error(path: Seq<char>, secret: Seq<char>) -> PipelineError {
    let rest = spec_message(path);
    if !spec_shape_ok(path) {
        PipelineError::BadRequest(ParseError::MalformedPath)
    } else if !spec_valid_key(path, secret) {
        PipelineError::SignatureInvalid
    } else if !dims_split_ok(rest) {
        PipelineError::BadRequest(ParseError::MalformedPath)
    } else if !spec_dim_accepts(spec_width_str(rest)) || !spec_dim_accepts(
        spec_height_str(rest),
    ) {
        PipelineError::BadRequest(ParseError::InvalidDimension)
    } else {
        PipelineError::BadRequest(
            build_error(
                spec_dim_value(spec_width_str(rest)),
                spec_dim_value(spec_height_str(rest)),
                spec_halign_raw(rest),
                spec_valign_raw(rest),
            ),
        )
    }
}

/// How an accepted request's specification relates to its message.
pub open spec fn props_match(p: UrlProps, rest: Seq<char>) -> bool {
    &&& p.width == spec_abs(spec_dim_value(spec_width_str(rest)))
    &&& p.height == spec_abs(spec_dim_value(spec_height_str(rest)))
    &&& p.filename@ == spec_filename(rest)
    &&& p.alignment.halign == spec_parse_halign(strip_slash(spec_halign_raw(rest)))->Ok_0
    &&& p.alignment.valign == spec_parse_valign(strip_slash(spec_valign_raw(rest)))->Ok_0
    &&& p.alignment.smart == spec_smart(
        spec_smart_raw(rest),
        spec_halign_raw(rest),
        spec_valign_raw(rest),
    )
    &&& p.flip.horizontal == (spec_dim_value(spec_width_str(rest)) < 0)
    &&& p.flip.vertical == (spec_dim_value(spec_height_str(rest)) < 0)
    &&& p.wf()
}

/// The segment that starts after the slash at `pos`, and its end: slash-free
/// by construction.
fn read_segment<'a>(rest: &'a str, pos: usize) -> (r: (&'a str, usize))
    requires
        pos < rest@.len(),
        rest@.len() <= usize::MAX,
    ensures
        r.1 == seg_end(rest@, pos as int),
        pos < r.1 <= rest@.len(),
        r.0@ == segment(rest@, pos as int),
        strip_slash(r.0@) == r.0@,
{
    let e = find_char(rest, pos + 1, '/');
    let seg = rest.substring_char(pos + 1, e);
    proof {
        lemma_find_char_no_hit(rest@, pos as int + 1, '/');
        assert(forall|j: int| 0 <= j < seg@.len() ==> seg@[j] == rest@[pos as int + 1 + j]);
        lemma_strip_slash_id(seg@);
    }
    (seg, e)
}

/// Verify the token and parse the directives of one request path,
/// producing the normalized transformation specification.  Verification
/// precedes parsing: a bad token on a parseable path reports
/// `SignatureInvalid`, and only the path shape is inspected before the
/// token.
pub fn plan_request(path: &str, settings: &Settings) -> (r: Result<UrlProps, PipelineError>)
    ensures
        r is Ok <==> spec_plan_accepts(path@, settings.secret_key@),
        r is Err ==> r->Err_0 == spec_plan_error(path@, settings.secret_key@),
        r is Ok ==> props_match(r->Ok_0, spec_message(path@)),
{
    let n = path.unicode_len();
    let i1 = find_char(path, 0, '/');
    if i1 == n {
        return Err(PipelineError::BadRequest(ParseError::MalformedPath));
    }
    let i2 = find_char(path, i1 + 1, '/');
    if i2 == n {
        return Err(PipelineError::BadRequest(ParseError::MalformedPath));
    }
    if !is_valid_key(path.to_owned(), settings) {
        return Err(PipelineError::SignatureInvalid);
    }
    let token = path.substring_char(i1 + 1, i2).to_owned();
    let rest = path.substring_char(i2 + 1, n);
    let m = rest.unicode_len();
    assert(rest@ == spec_message(path@));
    let j1 = find_char(rest, 0, '/');
    let k = find_char(rest, 0, 'x');
    if k >= j1 {
        return Err(PipelineError::BadRequest(ParseError::MalformedPath));
    }
    let width = match parse_dimension(rest.substring_char(0, k)) {
        Ok(v) => v,
        Err(e) => {
            return Err(PipelineError::BadRequest(e));
        },
    };
    let height = match parse_dimension(rest.substring_char(k + 1, j1)) {
        Ok(v) => v,
        Err(e) => {
            return Err(PipelineError::BadRequest(e));
        },
    };
    let mut pos = j1;
    let mut smart_str = String::new();
    let mut halign_str = String::new();
    let mut valign_str = String::new();
    if pos < m {
        let (seg, e) = read_segment(rest, pos);
        let v = strip_slashes(seg);
        if match_smart(&v) {
            smart_str = seg.to_owned();
            pos = e;
        }
    }
    assert(pos == pos_after_smart(rest@));
    assert(smart_str@ == spec_smart_raw(rest@));
    if pos < m {
        let (seg, e) = read_segment(rest, pos);
        let v = strip_slashes(seg);
        let is_word = v.len() > 0 && match_halign(&v).is_ok();
        if is_word {
            halign_str = seg.to_owned();
            pos = e;
        }
    }
    assert(pos == pos_after_halign(rest@));
    assert(halign_str@ == spec_halign_raw(rest@));
    if pos < m {
        let (seg, e) = read_segment(rest, pos);
        let v = strip_slashes(seg);
        let is_word = v.len() > 0 && match_valign(&v).is_ok();
        if is_word {
            valign_str = seg.to_owned();
            pos = e;
        }
    }
    assert(pos == pos_after_valign(rest@));
    assert(valign_str@ == spec_valign_raw(rest@));
    let filename = if pos < m {
        rest.substring_char(pos + 1, m).to_owned()
    } else {
        String::new()
    };
    assert(filename@ == spec_filename(rest@));
    let uri = UrlPropsController {
        key: token,
        width,
        height,
        smart: smart_str,
        halign: halign_str,
        valign: valign_str,
        filename,
    };
    match build_url_props(uri) {
        Ok(p) => Ok(p),
        Err(e) => Err(PipelineError::BadRequest(e)),
    }
}

/// Whether a filename is an absolute remote URL rather than a local
/// identifier.
pub open spec fn spec_is_remote(name: Seq<char>) -> bool {
    ||| (name.len() >= 7 && name.subrange(0, 7) == "http://"@)
    ||| (name.len() >= 8 && name.subrange(0, 8) == "https://"@)
}

/// Whether a filename is an absolute `http://` or `https://` URL; anything
/// else is treated as a local identifier.
pub fn is_remote_filename(name: &str) -> (r: bool)
    ensures
        r == spec_is_remote(name@),
{
    let n = name.unicode_len();
    proof {
        reveal_strlit("http://");
        reveal_strlit("https://");
    }
    let http = n >= 7 && name.get_char(0) == 'h' && name.get_char(1) == 't' && name.get_char(2)
        == 't' && name.get_char(3) == 'p' && name.get_char(4) == ':' && name.get_char(5) == '/'
        && name.get_char(6) == '/';
    let https = n >= 8 && name.get_char(0) == 'h' && name.get_char(1) == 't' && name.get_char(2)
        == 't' && name.get_char(3) == 'p' && name.get_char(4) == 's' && name.get_char(5) == ':'
        && name.get_char(6) == '/' && name.get_char(7) == '/';
    proof {
        if http {
            assert(name@.subrange(0, 7) =~= "http://"@);
        }
        if https {
            assert(name@.subrange(0, 8) =~= "https://"@);
        }
        if !http && name@.len() >= 7 && name@.subrange(0, 7) == "http://"@ {
            assert(name@[0] == "http://"@[0]);
            assert(name@[1] == "http://"@[1]);
            assert(name@[2] == "http://"@[2]);
            assert(name@[3] == "http://"@[3]);
            assert(name@[4] == "http://"@[4]);
            assert(name@[5] == "http://"@[5]);
            assert(name@[6] == "http://"@[6]);
        }
        if !https && name@.len() >= 8 && name@.subrange(0, 8) == "https://"@ {
            assert(name@[0] == "https://"@[0]);
            assert(name@[1] == "https://"@[1]);
            assert(name@[2] == "https://"@[2]);
            assert(name@[3] == "https://"@[3]);
            assert(name@[4] == "https://"@[4]);
            assert(name@[5] == "https://"@[5]);
            assert(name@[6] == "https://"@[6]);
            assert(name@[7] == "https://"@[7]);
        }
    }
    http || https
}

} // verus!
