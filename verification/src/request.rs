//! Decoding of the textual render request.
//!
//! A request is ASCII text of three whitespace-separated fields:
//! `<WIDTH>x<HEIGHT> <UX>,<UY> <LX>,<LY>`.  The field split, the bounds
//! field, and the geometry checks are verified here.  The two plane
//! coordinate fields are handed out as text: their values are
//! floating-point and are converted outside the library.

use vstd::prelude::*;
use vstd::string::*;
use crate::parse::is_u32_pair;
use crate::parse::left_of;
use crate::parse::numeral_value;
use crate::parse::parse_u32_pair;
use crate::parse::right_of;

verus! {

/// ASCII whitespace: the field separators of the request grammar.
pub open spec fn is_space(c: char) -> bool {
    c == ' ' || c == '\t' || c == '\n' || c == '\r' || c == '\x0c'
}

/// State of the field splitter after reading the first `n` characters
/// of `s`: the fields completed so far, and the partial field being
/// read.
pub open spec fn split_state(s: Seq<char>, n: int) -> (Seq<Seq<char>>, Seq<char>)
    decreases n,
{
    if n <= 0 {
        (Seq::empty(), Seq::empty())
    } else {
        let prev = split_state(s, n - 1);
        if is_space(s[n - 1]) {
            if prev.1.len() > 0 {
                (prev.0.push(prev.1), Seq::empty())
            } else {
                (prev.0, Seq::empty())
            }
        } else {
            (prev.0, prev.1.push(s[n - 1]))
        }
    }
}

/// The whitespace-separated fields of `s`, in order.
pub open spec fn fields_of(s: Seq<char>) -> Seq<Seq<char>> {
    let st = split_state(s, s.len() as int);
    if st.1.len() > 0 {
        st.0.push(st.1)
    } else {
        st.0
    }
}

/// The views of a sequence of owned strings.
pub open spec fn views_of(ts: Seq<String>) -> Seq<Seq<char>> {
    ts.map_values(|t: String| t@)
}

/// Whether `c` counts as ASCII whitespace.
fn char_is_space(c: char) -> (b: bool)
    ensures
        b == is_space(c),
{
    c == ' ' || c == '\t' || c == '\n' || c == '\r' || c == '\x0c'
}

/// Split `s` into its whitespace-separated fields.
pub fn split_fields(s: &str) -> (r: Vec<String>)
    ensures
        views_of(r@) == fields_of(s@),
{
    let n = s.unicode_len();
    let mut fields: Vec<String> = Vec::new();
    let mut cur: String = String::new();
    let mut i: usize = 0;
    while i < n
        invariant
            0 <= i <= n,
            n == s@.len(),
            views_of(fields@) == split_state(s@, i as int).0,
            cur@ == split_state(s@, i as int).1,
        decreases n - i,
    {
        let c = s.get_char(i);
        if char_is_space(c) {
            if cur.as_str().unicode_len() > 0 {
                let ghost prev_views = views_of(fields@);
                fields.push(cur);
                cur = String::new();
                proof {
                    assert(views_of(fields@) =~= prev_views.push(fields@.last()@));
                }
            }
        } else {
            let piece = s.substring_char(i, i + 1);
            cur.append(piece);
            proof {
                assert(s@.subrange(i as int, i + 1) =~= seq![s@[i as int]]);
                assert(cur@ =~= split_state(s@, i + 1).1);
            }
        }
        i = i + 1;
    }
    if cur.as_str().unicode_len() > 0 {
        let ghost prev_views = views_of(fields@);
        fields.push(cur);
        proof {
            assert(views_of(fields@) =~= prev_views.push(fields@.last()@));
        }
    }
    fields
}

/// Raster dimensions in pixels.
#[derive(Clone, Copy, PartialEq, Eq, Structural, Debug)]
pub struct Bounds {
    /// Raster width in pixels.
    pub width: u32,
    /// Raster height in pixels.
    pub height: u32,
}

/// A decoded render request: positive raster dimensions and the two
/// corner fields of the requested plane region, still as text.  The
/// corner values are floating-point and are converted to numbers
/// outside the library.
#[derive(Debug)]
pub struct Request {
    /// Raster dimensions; both are positive and their product fits the
    /// address space.
    pub bounds: Bounds,
    /// The request's second field: the upper-left corner, as text.
    pub upper_left: String,
    /// The request's third field: the lower-right corner, as text.
    pub lower_right: String,
}

/// Why a request was rejected.
#[derive(Clone, Copy, PartialEq, Eq, Structural, Debug)]
pub enum RequestError {
    /// The request does not have exactly three fields.
    FieldCount,
    /// The first field is not `<WIDTH>x<HEIGHT>` with two `u32`
    /// numerals.
    Bounds,
    /// A dimension is zero, or the raster would not fit the address
    /// space.
    Geometry,
}

/// The request text has three fields and a well-formed bounds field.
pub open spec fn request_grammar_ok(s: Seq<char>) -> bool {
    fields_of(s).len() == 3 && is_u32_pair(fields_of(s)[0], 'x')
}

/// Width stated by the request's bounds field.
pub open spec fn spec_width(s: Seq<char>) -> nat {
    numeral_value(left_of(fields_of(s)[0], 'x'))
}

/// Height stated by the request's bounds field.
pub open spec fn spec_height(s: Seq<char>) -> nat {
    numeral_value(right_of(fields_of(s)[0], 'x'))
}

/// The geometry a well-formed request states is renderable: both
/// dimensions positive, and the raster byte count within the address
/// space.
pub open spec fn geometry_ok(s: Seq<char>) -> bool {
    spec_width(s) > 0 && spec_height(s) > 0 && spec_width(s) * spec_height(s) <= usize::MAX
}

/// Decode a render request.
///
/// The text must hold exactly three whitespace-separated fields; the
/// first must be `<WIDTH>x<HEIGHT>` with both sides `u32` numerals;
/// both dimensions must be positive and the raster must fit the
/// address space.  Each failure is reported as its own error, and the
/// field count is checked before any field is read.  The two corner
/// fields are returned as text, exactly as they stood in the request.
pub fn parse_request(input: &str) -> (r: Result<Request, RequestError>)
    ensures
        match r {
            Ok(req) => {
                &&& request_grammar_ok(input@)
                &&& geometry_ok(input@)
                &&& req.bounds.width == spec_width(input@)
                &&& req.bounds.height == spec_height(input@)
                &&& req.upper_left@ == fields_of(input@)[1]
                &&& req.lower_right@ == fields_of(input@)[2]
            },
            Err(e) => {
                &&& (e == RequestError::FieldCount <==> fields_of(input@).len() != 3)
                &&& (e == RequestError::Bounds <==> fields_of(input@).len() == 3 && !is_u32_pair(
                    fields_of(input@)[0],
                    'x',
                ))
                &&& (e == RequestError::Geometry <==> request_grammar_ok(input@) && !geometry_ok(
                    input@,
                ))
            },
        },
{
    let fields = split_fields(input);
    if fields.len() != 3 {
        return Err(RequestError::FieldCount);
    }
    let (width, height) = match parse_u32_pair(fields[0].as_str(), 'x') {
        Some(pair) => pair,
        None => {
            return Err(RequestError::Bounds);
        },
    };
    if width == 0 || height == 0 {
        return Err(RequestError::Geometry);
    }
    proof {
        assert((width as u64) * (height as u64) <= u64::MAX) by (nonlinear_arith)
            requires
                width <= u32::MAX,
                height <= u32::MAX,
        ;
    }
    let total: u64 = (width as u64) * (height as u64);
    if total > (usize::MAX as u64) {
        return Err(RequestError::Geometry);
    }
    Ok(
        Request {
            bounds: Bounds { width, height },
            upper_left: fields[1].clone(),
            lower_right: fields[2].clone(),
        },
    )
}

} // verus!
