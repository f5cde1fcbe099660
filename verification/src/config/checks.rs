//! Checks of single values of a configuration. A check gives the text of an
//! error, or none.
use vstd::prelude::*;
use crate::text::ascii_lower;
use crate::text::cat2;
use crate::text::cat6;
use crate::text::decimal;
use crate::text::format_u64;
use crate::text::from_chars;
use crate::text::str_equal;
use crate::text::to_ascii_lower;
use crate::text::to_chars;

verus! {

/// The text of the error of a check.
pub open spec fn error_of(r: Result<(), String>) -> Option<Seq<char>> {
    match r {
        Ok(_) => None,
        Err(text) => Some(text@),
    }
}

/// The earlier of two errors.
pub open spec fn or_error(first: Option<Seq<char>>, second: Option<Seq<char>>) -> Option<
    Seq<char>,
> {
    if first is Some {
        first
    } else {
        second
    }
}

/// The earlier of the errors of two checks.
pub fn both(first: Result<(), String>, second: Result<(), String>) -> (r: Result<(), String>)
    ensures
        error_of(r) == or_error(error_of(first), error_of(second)),
{
    match first {
        Err(text) => Err(text),
        Ok(_) => second,
    }
}

/// A copy of the outcome of a check.
pub fn copy_outcome(outcome: &Result<(), String>) -> (r: Result<(), String>)
    ensures
        error_of(r) == error_of(*outcome),
{
    match outcome {
        Ok(_) => Ok(()),
        Err(text) => Err(text.clone()),
    }
}

/// The error of a value that must not be what it is.
pub open spec fn error_if(wrong: bool, text: Seq<char>) -> Option<Seq<char>> {
    if wrong {
        Some(text)
    } else {
        None
    }
}

/// Fails with a text where something is wrong.
pub fn fail_if(wrong: bool, text: &str) -> (r: Result<(), String>)
    ensures
        error_of(r) == error_if(wrong, text@),
{
    if wrong {
        Err(crate::text::owned(text))
    } else {
        Ok(())
    }
}

// ---------------------------------------------------------------------------
// Numbers
// ---------------------------------------------------------------------------
/// A floating-point number of single precision, by its bits.
#[derive(Clone, Copy, Debug, PartialEq, Eq, Structural)]
pub struct Single {
    pub bits: u32,
}

/// The bits of one.
pub const ONE_BITS: u32 = 0x3f80_0000;

/// The bits of infinity. Below them stand the finite numbers that are not
/// negative, in order.
pub const INFINITY_BITS: u32 = 0x7f80_0000;

/// The bits of the negative zero.
pub const NEGATIVE_ZERO_BITS: u32 = 0x8000_0000;

impl Single {
    /// Whether the number is between zero and one.
    pub open spec fn in_unit_interval(self) -> bool {
        self.bits <= ONE_BITS || self.bits == NEGATIVE_ZERO_BITS
    }

    /// Whether the number is finite and not negative.
    pub open spec fn finite_not_negative(self) -> bool {
        self.bits < INFINITY_BITS || self.bits == NEGATIVE_ZERO_BITS
    }

    /// Whether the number is finite and positive.
    pub open spec fn finite_positive(self) -> bool {
        0 < self.bits < INFINITY_BITS
    }
}

/// The error of a number that is not between zero and one.
pub open spec fn unit_interval_error(value: Single, field: Seq<char>) -> Option<Seq<char>> {
    error_if(!value.in_unit_interval(), field + " 必须是 0 到 1 之间的有限小数"@)
}

/// Fails where a number is not between zero and one.
pub fn validate_unit_interval(value: Single, field: &str) -> (r: Result<(), String>)
    ensures
        error_of(r) == unit_interval_error(value, field@),
{
    if value.bits <= ONE_BITS || value.bits == NEGATIVE_ZERO_BITS {
        Ok(())
    } else {
        Err(cat2(field, " 必须是 0 到 1 之间的有限小数"))
    }
}

/// The error of a number that is zero.
pub open spec fn positive_error(value: int, field: Seq<char>) -> Option<Seq<char>> {
    error_if(value == 0, field + " 必须大于 0"@)
}

/// Fails where a number is zero.
pub fn validate_positive(value: u64, field: &str) -> (r: Result<(), String>)
    ensures
        error_of(r) == positive_error(value as int, field@),
{
    if value == 0 {
        Err(cat2(field, " 必须大于 0"))
    } else {
        Ok(())
    }
}

// ---------------------------------------------------------------------------
// Places on the screen
// ---------------------------------------------------------------------------
/// A rectangle.
#[derive(Clone, Copy, Debug, PartialEq, Eq, Structural)]
pub struct RectConfig {
    pub x: i32,
    pub y: i32,
    pub width: u32,
    pub height: u32,
}

impl Default for RectConfig {
    fn default() -> (r: Self)
        ensures
            r == rect(0, 0, 0, 0),
    {
        RectConfig { x: 0, y: 0, width: 0, height: 0 }
    }
}

/// A rectangle.
pub open spec fn rect(x: i32, y: i32, width: u32, height: u32) -> RectConfig {
    RectConfig { x, y, width, height }
}

/// A point.
#[derive(Clone, Copy, Debug, PartialEq, Eq, Structural)]
pub struct PointConfig {
    pub x: i32,
    pub y: i32,
}

/// A point.
pub open spec fn point(x: i32, y: i32) -> PointConfig {
    PointConfig { x, y }
}

impl Default for PointConfig {
    fn default() -> (r: Self)
        ensures
            r == point(0, 0),
    {
        PointConfig { x: 0, y: 0 }
    }
}

impl PointConfig {
    /// The point at `x` and `y`.
    pub fn new(x: i32, y: i32) -> (r: Self)
        ensures
            r == point(x, y),
    {
        PointConfig { x, y }
    }
}

/// Whether a rectangle is empty.
pub open spec fn empty_rect(rect: RectConfig) -> bool {
    rect.width == 0 || rect.height == 0
}

/// Whether a rectangle lies on a canvas of a given size.
pub open spec fn rect_inside(rect: RectConfig, width: u32, height: u32) -> bool {
    &&& rect.x >= 0
    &&& rect.y >= 0
    &&& rect.x + rect.width <= width
    &&& rect.y + rect.height <= height
}

/// Whether a point lies on a canvas of a given size.
pub open spec fn point_inside(point: PointConfig, width: u32, height: u32) -> bool {
    0 <= point.x < width && 0 <= point.y < height
}

/// The error of an empty rectangle.
pub open spec fn rect_error(rect: RectConfig, field: Seq<char>) -> Option<Seq<char>> {
    error_if(empty_rect(rect), field + " 的 width 和 height 必须大于 0"@)
}

/// The error of a rectangle that is empty or does not lie on a canvas.
pub open spec fn canvas_rect_error(
    rect: RectConfig,
    field: Seq<char>,
    width: u32,
    height: u32,
) -> Option<Seq<char>> {
    or_error(
        rect_error(rect, field),
        error_if(
            !rect_inside(rect, width, height),
            field + " 必须完整位于 "@ + decimal(width as nat) + "x"@ + decimal(height as nat)
                + " 画布内"@,
        ),
    )
}

/// The error of a point that does not lie on a canvas.
pub open spec fn canvas_point_error(
    point: PointConfig,
    field: Seq<char>,
    width: u32,
    height: u32,
) -> Option<Seq<char>> {
    error_if(
        !point_inside(point, width, height),
        field + " 必须位于 "@ + decimal(width as nat) + "x"@ + decimal(height as nat)
            + " 画布内"@,
    )
}

/// Fails where a rectangle is empty.
pub fn validate_rect(rect: RectConfig, field: &str) -> (r: Result<(), String>)
    ensures
        error_of(r) == rect_error(rect, field@),
{
    if rect.width == 0 || rect.height == 0 {
        Err(cat2(field, " 的 width 和 height 必须大于 0"))
    } else {
        Ok(())
    }
}

/// Fails where a rectangle is empty or does not lie on a canvas.
pub fn validate_rect_in_canvas(
    rect: RectConfig,
    field: &str,
    canvas_width: u32,
    canvas_height: u32,
) -> (r: Result<(), String>)
    ensures
        error_of(r) == canvas_rect_error(rect, field@, canvas_width, canvas_height),
{
    match validate_rect(rect, field) {
        Err(text) => return Err(text),
        Ok(_) => {},
    }
    let right: i64 = rect.x as i64 + rect.width as i64;
    let bottom: i64 = rect.y as i64 + rect.height as i64;
    if rect.x < 0 || rect.y < 0 || right > canvas_width as i64 || bottom > canvas_height as i64 {
        return Err(
            cat6(
                field,
                " 必须完整位于 ",
                format_u64(canvas_width as u64).as_str(),
                "x",
                format_u64(canvas_height as u64).as_str(),
                " 画布内",
            ),
        );
    }
    Ok(())
}

/// Fails where a point does not lie on a canvas.
pub fn validate_point_in_canvas(
    point: PointConfig,
    field: &str,
    canvas_width: u32,
    canvas_height: u32,
) -> (r: Result<(), String>)
    ensures
        error_of(r) == canvas_point_error(point, field@, canvas_width, canvas_height),
{
    if point.x < 0 || point.y < 0 || point.x as i64 >= canvas_width as i64 || point.y as i64
        >= canvas_height as i64 {
        return Err(
            cat6(
                field,
                " 必须位于 ",
                format_u64(canvas_width as u64).as_str(),
                "x",
                format_u64(canvas_height as u64).as_str(),
                " 画布内",
            ),
        );
    }
    Ok(())
}

// ---------------------------------------------------------------------------
// Texts
// ---------------------------------------------------------------------------
/// The error of an empty path.
pub open spec fn path_error(path: Seq<char>, field: Seq<char>) -> Option<Seq<char>> {
    error_if(path.len() == 0, field + " 不能为空"@)
}

/// Whether a text is empty.
pub fn is_empty_text(text: &str) -> (r: bool)
    ensures
        r == (text@.len() == 0),
{
    to_chars(text).len() == 0
}

/// Fails where a path is empty.
pub fn validate_nonempty_path(path: &str, field: &str) -> (r: Result<(), String>)
    ensures
        error_of(r) == path_error(path@, field@),
{
    if is_empty_text(path) {
        Err(cat2(field, " 不能为空"))
    } else {
        Ok(())
    }
}

/// A text with its ASCII letters in lower case.
pub open spec fn lowered(s: Seq<char>) -> Seq<char> {
    Seq::new(s.len(), |i: int| ascii_lower(s[i]))
}

/// A text with its ASCII letters in lower case.
pub fn to_lowered(text: &str) -> (r: String)
    ensures
        r@ == lowered(text@),
{
    let chars = to_chars(text);
    let mut out: Vec<char> = Vec::new();
    let mut i: usize = 0;
    while i < chars.len()
        invariant
            i <= chars@.len(),
            out@.len() == i,
            forall|k: int| 0 <= k < i ==> out@[k] == ascii_lower(#[trigger] chars@[k]),
        decreases chars@.len() - i,
    {
        out.push(to_ascii_lower(chars[i]));
        i = i + 1;
    }
    assert(out@ =~= lowered(text@));
    from_chars(out.as_slice())
}

/// Whether two texts are the same but for the case of ASCII letters.
pub fn equal_lowered(a: &str, b: &str) -> (r: bool)
    ensures
        r == (lowered(a@) == lowered(b@)),
{
    str_equal(to_lowered(a).as_str(), to_lowered(b).as_str())
}

// ---------------------------------------------------------------------------
// What the checks are for
// ---------------------------------------------------------------------------
/// Every pixel of a region that is accepted lies on the canvas, and is itself
/// accepted as a point.
pub proof fn law_region_lies_on_canvas(
    rect: RectConfig,
    field: Seq<char>,
    width: u32,
    height: u32,
    dx: int,
    dy: int,
)
    requires
        canvas_rect_error(rect, field, width, height) is None,
        0 <= dx < rect.width,
        0 <= dy < rect.height,
    ensures
        0 <= rect.x + dx < width,
        0 <= rect.y + dy < height,
        rect.x + dx <= i32::MAX && rect.y + dy <= i32::MAX ==> canvas_point_error(
            PointConfig { x: (rect.x + dx) as i32, y: (rect.y + dy) as i32 },
            field,
            width,
            height,
        ) is None,
{
}

/// A region is accepted where it has a pixel, and the first and the last of its
/// pixels lie on the canvas; and no other is.
pub proof fn law_region_is_accepted(
    rect: RectConfig,
    field: Seq<char>,
    width: u32,
    height: u32,
)
    ensures
        canvas_rect_error(rect, field, width, height) is None <==> {
            &&& rect.width > 0
            &&& rect.height > 0
            &&& 0 <= rect.x
            &&& 0 <= rect.y
            &&& rect.x + (rect.width - 1) < width
            &&& rect.y + (rect.height - 1) < height
        },
        rect_error(rect, field) is None <==> rect.width > 0 && rect.height > 0,
{
}

/// A point is accepted exactly where it lies on the canvas.
pub proof fn law_point_is_accepted(point: PointConfig, field: Seq<char>, width: u32, height: u32)
    ensures
        canvas_point_error(point, field, width, height) is None <==> 0 <= point.x && point.x
            < width && 0 <= point.y && point.y < height,
{
}

/// A number is accepted between zero and one where it is one of these, ends
/// included: of what is not negative all up to one and nothing above it, and of what
/// is negative only the zero.
pub proof fn law_unit_interval(value: Single, field: Seq<char>)
    ensures
        value.bits < 0x8000_0000 ==> (unit_interval_error(value, field) is None <==> value.bits
            <= 0x3f80_0000),
        value.bits >= 0x8000_0000 ==> (unit_interval_error(value, field) is None <==> value.bits
            == 0x8000_0000),
{
}

/// A number is finite and not negative below infinity, and positive where it is not
/// zero either.
pub proof fn law_finite_numbers(value: Single)
    ensures
        value.bits < 0x8000_0000 ==> (value.finite_not_negative() <==> value.bits < 0x7f80_0000),
        value.bits >= 0x8000_0000 ==> (value.finite_not_negative() <==> value.bits == 0x8000_0000),
        value.finite_positive() <==> value.bits != 0 && value.bits < 0x7f80_0000,
{
}

/// The error of a check starts with the name of what was checked, and a number is
/// refused only where it is zero, a path only where it is empty.
pub proof fn law_errors_name_the_field(
    rect: RectConfig,
    point: PointConfig,
    number: int,
    value: Single,
    path: Seq<char>,
    field: Seq<char>,
    width: u32,
    height: u32,
)
    ensures
        canvas_rect_error(rect, field, width, height) matches Some(text) ==> field.is_prefix_of(
            text,
        ),
        canvas_point_error(point, field, width, height) matches Some(text) ==> field.is_prefix_of(
            text,
        ),
        positive_error(number, field) matches Some(text) ==> field.is_prefix_of(text),
        unit_interval_error(value, field) matches Some(text) ==> field.is_prefix_of(text),
        path_error(path, field) matches Some(text) ==> field.is_prefix_of(text),
        positive_error(number, field) is None <==> number != 0,
        path_error(path, field) is None <==> path.len() > 0,
{
    let texts = seq![
        canvas_rect_error(rect, field, width, height),
        canvas_point_error(point, field, width, height),
        positive_error(number, field),
        unit_interval_error(value, field),
        path_error(path, field),
    ];
    assert forall|i: int| 0 <= i < texts.len() && texts[i] is Some implies field.is_prefix_of(
        (#[trigger] texts[i])->0,
    ) by {
        let text = texts[i]->0;
        assert(field =~= text.subrange(0, field.len() as int));
    }
    assert(texts[0] == canvas_rect_error(rect, field, width, height));
    assert(texts[1] == canvas_point_error(point, field, width, height));
    assert(texts[2] == positive_error(number, field));
    assert(texts[3] == unit_interval_error(value, field));
    assert(texts[4] == path_error(path, field));
}

/// Of two checks the earlier error counts, and there is none only where neither has
/// one.
pub proof fn law_earlier_error_counts(first: Option<Seq<char>>, second: Option<Seq<char>>)
    ensures
        first is Some ==> or_error(first, second) == first,
        first is None ==> or_error(first, second) == second,
{
}

/// Two texts are the same but for the case of their letters exactly where each of
/// their characters is.
pub proof fn law_lowered(a: Seq<char>, b: Seq<char>, i: int)
    ensures
        lowered(a).len() == a.len(),
        0 <= i < a.len() && 'A' <= a[i] <= 'Z' ==> lowered(a)[i] as int == a[i] as int + 32,
        0 <= i < a.len() && !('A' <= a[i] <= 'Z') ==> lowered(a)[i] == a[i],
        lowered(a + b) == lowered(a) + lowered(b),
        lowered(lowered(a)) == lowered(a),
{
    assert(lowered(a + b) =~= lowered(a) + lowered(b));
    assert(lowered(lowered(a)) =~= lowered(a));
}

} // verus!
