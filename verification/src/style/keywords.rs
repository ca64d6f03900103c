//! The layout keywords whose grammar belongs to the layout engine: `display`,
//! `flex-direction`, `flex-wrap`, `align-items` and `justify-content` are
//! parsed by taffy's `FromStr` implementations, so that the style accepts
//! exactly what the layout engine accepts.
use crate::style::types::{
    CssAlignContent, CssAlignContentKeyword, CssAlignItems, CssAlignItemsKeyword,
    CssAlignmentSafety, CssDisplay, CssFlexDirection, CssFlexWrap,
};
use vstd::prelude::*;

verus! {

/// What `taffy::style::Display::from_str` makes of a string (`None` where it
/// returns an error).
pub uninterp spec fn taffy_display(value: Seq<char>) -> Option<CssDisplay>;

/// What `taffy::style::FlexDirection::from_str` makes of a string.
pub uninterp spec fn taffy_flex_direction(value: Seq<char>) -> Option<CssFlexDirection>;

/// What `taffy::style::FlexWrap::from_str` makes of a string.
pub uninterp spec fn taffy_flex_wrap(value: Seq<char>) -> Option<CssFlexWrap>;

/// What `taffy::style::AlignItems::from_str` makes of a string: the positions
/// of its keyword in `AlignItemsKeyword` and of its safety in
/// `AlignmentSafety`, as `as u8` gives them.
pub uninterp spec fn taffy_align_items(value: Seq<char>) -> Option<(u8, u8)>;

/// What `taffy::style::AlignContent::from_str` (the parser of
/// `justify-content`) makes of a string: the positions of its keyword in
/// `AlignContentKeyword` and of its safety in `AlignmentSafety`.
pub uninterp spec fn taffy_align_content(value: Seq<char>) -> Option<(u8, u8)>;

/// Calls `taffy::style::Display::from_str`; the result is the named
/// `taffy_display` of the argument, with taffy's `None` variant as `Hidden`.
#[verifier::external_body]
pub(crate) fn parse_display(value: &str) -> (r: Option<CssDisplay>)
    ensures
        r == taffy_display(value@),
{
    match value.parse::<taffy::style::Display>() {
        Ok(taffy::style::Display::Block) => Some(CssDisplay::Block),
        Ok(taffy::style::Display::FlowRoot) => Some(CssDisplay::FlowRoot),
        Ok(taffy::style::Display::Flex) => Some(CssDisplay::Flex),
        Ok(taffy::style::Display::Grid) => Some(CssDisplay::Grid),
        Ok(taffy::style::Display::None) => Some(CssDisplay::Hidden),
        Err(_) => None,
    }
}

/// Calls `taffy::style::FlexDirection::from_str`; the result is the named
/// `taffy_flex_direction` of the argument.
#[verifier::external_body]
pub(crate) fn parse_flex_direction(value: &str) -> (r: Option<CssFlexDirection>)
    ensures
        r == taffy_flex_direction(value@),
{
    match value.parse::<taffy::style::FlexDirection>() {
        Ok(taffy::style::FlexDirection::Row) => Some(CssFlexDirection::Row),
        Ok(taffy::style::FlexDirection::Column) => Some(CssFlexDirection::Column),
        Ok(taffy::style::FlexDirection::RowReverse) => Some(CssFlexDirection::RowReverse),
        Ok(taffy::style::FlexDirection::ColumnReverse) => Some(CssFlexDirection::ColumnReverse),
        Err(_) => None,
    }
}

/// Calls `taffy::style::FlexWrap::from_str`; the result is the named
/// `taffy_flex_wrap` of the argument.
#[verifier::external_body]
pub(crate) fn parse_flex_wrap(value: &str) -> (r: Option<CssFlexWrap>)
    ensures
        r == taffy_flex_wrap(value@),
{
    match value.parse::<taffy::style::FlexWrap>() {
        Ok(taffy::style::FlexWrap::NoWrap) => Some(CssFlexWrap::NoWrap),
        Ok(taffy::style::FlexWrap::Wrap) => Some(CssFlexWrap::Wrap),
        Ok(taffy::style::FlexWrap::WrapReverse) => Some(CssFlexWrap::WrapReverse),
        Ok(taffy::style::FlexWrap::Balance) => Some(CssFlexWrap::Balance),
        Ok(taffy::style::FlexWrap::BalanceReverse) => Some(CssFlexWrap::BalanceReverse),
        Err(_) => None,
    }
}

/// Calls `taffy::style::AlignItems::from_str`; the result is the named
/// `taffy_align_items` of the argument.
#[verifier::external_body]
fn align_items_codes(value: &str) -> (r: Option<(u8, u8)>)
    ensures
        r == taffy_align_items(value@),
{
    match value.parse::<taffy::style::AlignItems>() {
        Ok(a) => Some((a.keyword as u8, a.safety as u8)),
        Err(_) => None,
    }
}

/// Calls `taffy::style::AlignContent::from_str`; the result is the named
/// `taffy_align_content` of the argument.
#[verifier::external_body]
fn align_content_codes(value: &str) -> (r: Option<(u8, u8)>)
    ensures
        r == taffy_align_content(value@),
{
    match value.parse::<taffy::style::AlignContent>() {
        Ok(a) => Some((a.keyword as u8, a.safety as u8)),
        Err(_) => None,
    }
}

/// The safety at position `c` of taffy's `AlignmentSafety`.
pub open spec fn safety_at(c: u8) -> Option<CssAlignmentSafety> {
    if c == 0 {
        Some(CssAlignmentSafety::Default)
    } else if c == 1 {
        Some(CssAlignmentSafety::Unsafe)
    } else if c == 2 {
        Some(CssAlignmentSafety::Safe)
    } else {
        None
    }
}

/// The keyword at position `c` of taffy's `AlignItemsKeyword`.
pub open spec fn align_items_keyword_at(c: u8) -> Option<CssAlignItemsKeyword> {
    if c == 0 {
        Some(CssAlignItemsKeyword::Normal)
    } else if c == 1 {
        Some(CssAlignItemsKeyword::Start)
    } else if c == 2 {
        Some(CssAlignItemsKeyword::End)
    } else if c == 3 {
        Some(CssAlignItemsKeyword::FlexStart)
    } else if c == 4 {
        Some(CssAlignItemsKeyword::FlexEnd)
    } else if c == 5 {
        Some(CssAlignItemsKeyword::SelfStart)
    } else if c == 6 {
        Some(CssAlignItemsKeyword::SelfEnd)
    } else if c == 7 {
        Some(CssAlignItemsKeyword::Center)
    } else if c == 8 {
        Some(CssAlignItemsKeyword::Baseline)
    } else if c == 9 {
        Some(CssAlignItemsKeyword::Stretch)
    } else {
        None
    }
}

/// The keyword at position `c` of taffy's `AlignContentKeyword`.
pub open spec fn align_content_keyword_at(c: u8) -> Option<CssAlignContentKeyword> {
    if c == 0 {
        Some(CssAlignContentKeyword::Normal)
    } else if c == 1 {
        Some(CssAlignContentKeyword::Start)
    } else if c == 2 {
        Some(CssAlignContentKeyword::End)
    } else if c == 3 {
        Some(CssAlignContentKeyword::FlexStart)
    } else if c == 4 {
        Some(CssAlignContentKeyword::FlexEnd)
    } else if c == 5 {
        Some(CssAlignContentKeyword::Center)
    } else if c == 6 {
        Some(CssAlignContentKeyword::Stretch)
    } else if c == 7 {
        Some(CssAlignContentKeyword::SpaceBetween)
    } else if c == 8 {
        Some(CssAlignContentKeyword::SpaceEvenly)
    } else if c == 9 {
        Some(CssAlignContentKeyword::SpaceAround)
    } else {
        None
    }
}

/// The `align-items` value that a pair of positions stands for.
pub open spec fn align_items_of(codes: Option<(u8, u8)>) -> Option<CssAlignItems> {
    match codes {
        Some((k, s)) => match (align_items_keyword_at(k), safety_at(s)) {
            (Some(keyword), Some(safety)) => Some(CssAlignItems { keyword, safety }),
            _ => None,
        },
        None => None,
    }
}

/// The `justify-content` value that a pair of positions stands for.
pub open spec fn align_content_of(codes: Option<(u8, u8)>) -> Option<CssAlignContent> {
    match codes {
        Some((k, s)) => match (align_content_keyword_at(k), safety_at(s)) {
            (Some(keyword), Some(safety)) => Some(CssAlignContent { keyword, safety }),
            _ => None,
        },
        None => None,
    }
}

fn safety_from_code(c: u8) -> (r: Option<CssAlignmentSafety>)
    ensures
        r == safety_at(c),
{
    match c {
        0 => Some(CssAlignmentSafety::Default),
        1 => Some(CssAlignmentSafety::Unsafe),
        2 => Some(CssAlignmentSafety::Safe),
        _ => None,
    }
}

/// The `align-items` value of taffy's keyword and safety positions.
pub fn align_items_from_codes(codes: Option<(u8, u8)>) -> (r: Option<CssAlignItems>)
    ensures
        r == align_items_of(codes),
{
    let (k, s) = match codes {
        Some(pair) => pair,
        None => return None,
    };
    let keyword = match k {
        0 => CssAlignItemsKeyword::Normal,
        1 => CssAlignItemsKeyword::Start,
        2 => CssAlignItemsKeyword::End,
        3 => CssAlignItemsKeyword::FlexStart,
        4 => CssAlignItemsKeyword::FlexEnd,
        5 => CssAlignItemsKeyword::SelfStart,
        6 => CssAlignItemsKeyword::SelfEnd,
        7 => CssAlignItemsKeyword::Center,
        8 => CssAlignItemsKeyword::Baseline,
        9 => CssAlignItemsKeyword::Stretch,
        _ => return None,
    };
    match safety_from_code(s) {
        Some(safety) => Some(CssAlignItems { keyword, safety }),
        None => None,
    }
}

/// The `justify-content` value of taffy's keyword and safety positions.
pub fn align_content_from_codes(codes: Option<(u8, u8)>) -> (r: Option<CssAlignContent>)
    ensures
        r == align_content_of(codes),
{
    let (k, s) = match codes {
        Some(pair) => pair,
        None => return None,
    };
    let keyword = match k {
        0 => CssAlignContentKeyword::Normal,
        1 => CssAlignContentKeyword::Start,
        2 => CssAlignContentKeyword::End,
        3 => CssAlignContentKeyword::FlexStart,
        4 => CssAlignContentKeyword::FlexEnd,
        5 => CssAlignContentKeyword::Center,
        6 => CssAlignContentKeyword::Stretch,
        7 => CssAlignContentKeyword::SpaceBetween,
        8 => CssAlignContentKeyword::SpaceEvenly,
        9 => CssAlignContentKeyword::SpaceAround,
        _ => return None,
    };
    match safety_from_code(s) {
        Some(safety) => Some(CssAlignContent { keyword, safety }),
        None => None,
    }
}

/// Parses an `align-items` value as taffy does.
pub fn parse_align_items(value: &str) -> (r: Option<CssAlignItems>)
    ensures
        r == align_items_of(taffy_align_items(value@)),
{
    align_items_from_codes(align_items_codes(value))
}

/// Parses a `justify-content` value as taffy does.
pub fn parse_justify_content(value: &str) -> (r: Option<CssAlignContent>)
    ensures
        r == align_content_of(taffy_align_content(value@)),
{
    align_content_from_codes(align_content_codes(value))
}

} // verus!
