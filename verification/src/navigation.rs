//! The decisions of the interactive session that do not touch the page:
//! what releasing the pointer over a target does, and which anchor a
//! fragment navigation scrolls to.
use crate::number::CssNumber;
use crate::text::starts_with;
use vstd::prelude::*;

verus! {

/// What `percent_encoding::percent_decode_str(..).decode_utf8_lossy()` makes
/// of a string.
pub uninterp spec fn percent_decoded(value: Seq<char>) -> Seq<char>;

/// Calls `percent_encoding::percent_decode_str` and decodes the bytes as
/// UTF-8, replacing invalid sequences; the result is the named
/// `percent_decoded` of the argument.
#[verifier::external_body]
fn percent_decode(value: &str) -> (r: String)
    ensures
        r@ == percent_decoded(value@),
{
    percent_encoding::percent_decode_str(value).decode_utf8_lossy().into_owned()
}

/// The anchor that a fragment navigation scrolls to: the percent-decoded
/// fragment, or none for a missing or empty one (which scrolls to the top).
pub open spec fn fragment_anchor_spec(fragment: Option<Seq<char>>) -> Option<Seq<char>> {
    match fragment {
        Some(raw) => if percent_decoded(raw).len() > 0 {
            Some(percent_decoded(raw))
        } else {
            None
        },
        None => None,
    }
}

/// The anchor that a fragment navigation scrolls to (see `fragment_anchor_spec`).
pub fn fragment_anchor(fragment: Option<&str>) -> (r: Option<String>)
    ensures
        match r {
            Some(a) => fragment_anchor_spec(match fragment {
                Some(f) => Some(f@),
                None => None,
            }) == Some(a@),
            None => fragment_anchor_spec(match fragment {
                Some(f) => Some(f@),
                None => None,
            }) is None,
        },
{
    match fragment {
        Some(raw) => {
            let decoded = percent_decode(raw);
            if decoded.as_str().unicode_len() > 0 {
                Some(decoded)
            } else {
                None
            }
        },
        None => None,
    }
}

/// What a hit target is.
#[derive(Clone, Copy, Debug, PartialEq, Eq, Structural)]
pub enum HitTargetKind {
    /// A text input or text area, which takes the focus.
    Input,
    /// The summary of a `details` element, which opens or closes it.
    Summary { details_node_id: u64 },
    /// Anything with a click listener.
    Click,
}

/// A box that reacts to the pointer, in document coordinates.
#[derive(Clone, Copy, Debug, PartialEq, Eq, Structural)]
pub struct HitTarget {
    pub node_id: u64,
    pub kind: HitTargetKind,
    pub x: CssNumber,
    pub y: CssNumber,
    pub width: CssNumber,
    pub height: CssNumber,
}

/// What releasing the pointer does, after the focused input is blurred
/// where `ActivationPlan::blur_focused` says so.
#[derive(Clone, Copy, Debug, PartialEq, Eq, Structural)]
pub enum Activation {
    Nothing,
    FocusInput { node_id: u64 },
    ToggleDetails { summary_node_id: u64, details_node_id: u64 },
    Click { node_id: u64 },
}

/// The effects of releasing the pointer, in order: blur the focused input,
/// then the activation.
#[derive(Clone, Copy, Debug, PartialEq, Eq, Structural)]
pub struct ActivationPlan {
    pub blur_focused: bool,
    pub activation: Activation,
}

/// Releasing the pointer over `hit` after pressing it over `pressed`:
/// outside any target it blurs the focused input unless a press began on a
/// target; over a target other than the pressed one it does nothing; over
/// the pressed target it blurs the focused input unless the target is an
/// input, then focuses the input, toggles the details or clicks.
pub open spec fn activation_spec(hit: Option<HitTarget>, pressed: Option<u64>) -> ActivationPlan {
    match hit {
        None => ActivationPlan { blur_focused: pressed is None, activation: Activation::Nothing },
        Some(t) => if pressed != Some(t.node_id) {
            ActivationPlan { blur_focused: false, activation: Activation::Nothing }
        } else {
            match t.kind {
                HitTargetKind::Input => ActivationPlan {
                    blur_focused: false,
                    activation: Activation::FocusInput { node_id: t.node_id },
                },
                HitTargetKind::Summary { details_node_id } => ActivationPlan {
                    blur_focused: true,
                    activation: Activation::ToggleDetails { summary_node_id: t.node_id, details_node_id },
                },
                HitTargetKind::Click => ActivationPlan {
                    blur_focused: true,
                    activation: Activation::Click { node_id: t.node_id },
                },
            }
        },
    }
}

/// The effects of releasing the pointer (see `activation_spec`).
pub fn activation_plan(hit: Option<HitTarget>, pressed: Option<u64>) -> (r: ActivationPlan)
    ensures
        r == activation_spec(hit, pressed),
{
    let target = match hit {
        Some(t) => t,
        None => {
            return ActivationPlan { blur_focused: pressed.is_none(), activation: Activation::Nothing };
        },
    };
    let same = match pressed {
        Some(p) => p == target.node_id,
        None => false,
    };
    if !same {
        return ActivationPlan { blur_focused: false, activation: Activation::Nothing };
    }
    match target.kind {
        HitTargetKind::Input => ActivationPlan {
            blur_focused: false,
            activation: Activation::FocusInput { node_id: target.node_id },
        },
        HitTargetKind::Summary { details_node_id } => ActivationPlan {
            blur_focused: true,
            activation: Activation::ToggleDetails { summary_node_id: target.node_id, details_node_id },
        },
        HitTargetKind::Click => ActivationPlan {
            blur_focused: true,
            activation: Activation::Click { node_id: target.node_id },
        },
    }
}

/// `x` held between the top and `max_scroll`.
pub open spec fn clamp_scroll(x: int, max_scroll: int) -> int {
    if x < 0 {
        0
    } else if x > max_scroll {
        max_scroll
    } else {
        x
    }
}

/// Where the page is scrolled after a resize: to the position of the anchor
/// kept from the last fragment navigation, where the page still has it, else
/// where it was; held between the top and the new `max_scroll`.
pub fn resized_scroll(anchor_position: Option<CssNumber>, scroll_y: CssNumber, max_scroll: CssNumber) -> (r: CssNumber)
    requires
        max_scroll.val() >= 0,
    ensures
        r.val() == clamp_scroll(
            match anchor_position {
                Some(p) => p.val(),
                None => scroll_y.val(),
            },
            max_scroll.val(),
        ),
{
    let next = match anchor_position {
        Some(p) => p,
        None => scroll_y,
    };
    if next.micros < 0 {
        CssNumber { micros: 0 }
    } else if next.micros > max_scroll.micros {
        max_scroll
    } else {
        next
    }
}

/// Where a fragment navigation scrolls, and the anchor that later resizes
/// keep in view: the top for no anchor; the anchor's position for an anchor
/// that the page has; otherwise the current position, keeping no anchor.
/// The position is held between the top and `max_scroll`.
pub open spec fn fragment_scroll_spec(anchor: Option<Seq<char>>, position: Option<int>, scroll_y: int, max_scroll: int) -> (
    int,
    Option<Seq<char>>,
) {
    let (next, kept) = match anchor {
        None => (0, None),
        Some(a) => match position {
            Some(p) => (p, Some(a)),
            None => (scroll_y, None),
        },
    };
    (if next < 0 {
        0
    } else if next > max_scroll {
        max_scroll
    } else {
        next
    }, kept)
}

/// Where a fragment navigation to `anchor` scrolls, given the position of
/// that anchor on the page, if it has one (see `fragment_scroll_spec`).
pub fn fragment_scroll(anchor: Option<String>, position: Option<CssNumber>, scroll_y: CssNumber, max_scroll: CssNumber) -> (r: (
    CssNumber,
    Option<String>,
))
    requires
        max_scroll.val() >= 0,
    ensures
        r.0.val() == fragment_scroll_spec(
            match anchor {
                Some(a) => Some(a@),
                None => None,
            },
            match position {
                Some(p) => Some(p.val()),
                None => None,
            },
            scroll_y.val(),
            max_scroll.val(),
        ).0,
        match (r.1, fragment_scroll_spec(
            match anchor {
                Some(a) => Some(a@),
                None => None,
            },
            match position {
                Some(p) => Some(p.val()),
                None => None,
            },
            scroll_y.val(),
            max_scroll.val(),
        ).1) {
            (Some(a), Some(b)) => a@ == b,
            (None, None) => true,
            _ => false,
        },
{
    let (next, kept) = match anchor {
        None => (CssNumber { micros: 0 }, None),
        Some(a) => match position {
            Some(p) => (p, Some(a)),
            None => (scroll_y, None),
        },
    };
    let clamped = if next.micros < 0 {
        CssNumber { micros: 0 }
    } else if next.micros > max_scroll.micros {
        max_scroll
    } else {
        next
    };
    (clamped, kept)
}

/// What a click's navigation request leads to.
pub enum NavigationOutcome {
    /// The click asked for no navigation.
    Stay,
    /// A link within the document: scroll to the fragment of the URL.
    Fragment(String),
    /// A link to another document, left for the embedder to follow.
    Leave(String),
    /// The link could not be resolved; the message says why.
    Failed(String),
}

/// The value of an outcome, with its text as characters.
pub enum OutcomeView {
    Stay,
    Fragment(Seq<char>),
    Leave(Seq<char>),
    Failed(Seq<char>),
}

impl View for NavigationOutcome {
    type V = OutcomeView;

    open spec fn view(&self) -> OutcomeView {
        match self {
            NavigationOutcome::Stay => OutcomeView::Stay,
            NavigationOutcome::Fragment(u) => OutcomeView::Fragment(u@),
            NavigationOutcome::Leave(u) => OutcomeView::Leave(u@),
            NavigationOutcome::Failed(m) => OutcomeView::Failed(m@),
        }
    }
}

/// What a navigation request leads to, given its target resolved against
/// the page (`None` for no request) and whether the resolved URL is the
/// same document with another fragment; an unresolved target fails with
/// the message of `navigation_error`.
pub open spec fn navigation_outcome_spec(resolved: Option<Result<Seq<char>, Seq<char>>>, same_document: bool) -> OutcomeView {
    match resolved {
        None => OutcomeView::Stay,
        Some(Ok(url)) => if same_document {
            OutcomeView::Fragment(url)
        } else {
            OutcomeView::Leave(url)
        },
        Some(Err(e)) => OutcomeView::Failed(
            if starts_with(e, "resource URL is invalid"@) {
                "link target is invalid: "@ + e
            } else {
                e
            },
        ),
    }
}

/// What a navigation request leads to (see `navigation_outcome_spec`).
pub fn navigation_outcome(resolved: Option<Result<String, String>>, same_document: bool) -> (r: NavigationOutcome)
    ensures
        r@ == navigation_outcome_spec(
            match resolved {
                None => None,
                Some(Ok(u)) => Some(Ok(u@)),
                Some(Err(e)) => Some(Err(e@)),
            },
            same_document,
        ),
{
    match resolved {
        None => NavigationOutcome::Stay,
        Some(Ok(url)) => if same_document {
            NavigationOutcome::Fragment(url)
        } else {
            NavigationOutcome::Leave(url)
        },
        Some(Err(error)) => NavigationOutcome::Failed(crate::layout::navigation_error(error)),
    }
}

} // verus!
