//! The widget as a window of the host application: the description of that
//! window, which the host hands to its window system.

use vstd::prelude::*;
use crate::decimal::{decimal, i64_to_decimal, lemma_decimal_injective};

verus! {

/// Width and height in logical pixels.
#[derive(Clone, Copy, Debug, PartialEq, Eq, Structural)]
pub struct Size {
    pub width: u32,
    pub height: u32,
}

/// What the host needs to build a window.
#[derive(Debug, PartialEq, Eq)]
pub struct WindowConfig {
    /// The name under which the window system knows the window.
    pub label: String,
    /// The page of the application that the window shows.
    pub url: String,
    pub title: String,
    pub inner_size: Size,
    pub min_inner_size: Size,
    pub max_inner_size: Size,
    pub resizable: bool,
    pub decorations: bool,
    pub always_on_top: bool,
    pub skip_taskbar: bool,
    /// Whether the window is placed in the middle of the screen.
    pub centered: bool,
}

/// What every window label starts with.
pub const LABEL_PREFIX: &'static str = "enhanced-widget-";

/// The page that the widget window shows.
pub const WIDGET_URL: &'static str = "/widget";

/// The title of the widget window.
pub const WIDGET_TITLE: &'static str = "Focus Timer";

/// The width of the widget window.
pub const WIDGET_WIDTH: u32 = 320;

/// The height of the widget window.
pub const WIDGET_HEIGHT: u32 = 50;

/// The one size of the widget window.
pub open spec fn widget_size() -> Size {
    Size { width: WIDGET_WIDTH, height: WIDGET_HEIGHT }
}

/// The label of the window made at `now_millis`, in milliseconds since the
/// Unix epoch: the prefix, then the instant in decimal notation.
pub open spec fn window_label(now_millis: int) -> Seq<char> {
    LABEL_PREFIX@ + decimal(now_millis)
}

/// Whether `window` is the widget window made at `now_millis`: a small strip
/// of fixed size without decorations, kept above other windows and out of
/// the task bar, in the middle of the screen.
pub open spec fn is_widget_window(window: WindowConfig, now_millis: int) -> bool {
    &&& window.label@ == window_label(now_millis)
    &&& window.url@ == WIDGET_URL@
    &&& window.title@ == WIDGET_TITLE@
    &&& window.inner_size == widget_size()
    &&& window.min_inner_size == widget_size()
    &&& window.max_inner_size == widget_size()
    &&& !window.resizable
    &&& !window.decorations
    &&& window.always_on_top
    &&& window.skip_taskbar
    &&& window.centered
}

/// Windows made at different instants carry different labels.
pub proof fn lemma_window_labels_differ(first_millis: int, second_millis: int)
    requires
        first_millis != second_millis,
    ensures
        window_label(first_millis) != window_label(second_millis),
{
    let prefix = LABEL_PREFIX@;
    if window_label(first_millis) == window_label(second_millis) {
        assert(window_label(first_millis).skip(prefix.len() as int) =~= decimal(first_millis));
        assert(window_label(second_millis).skip(prefix.len() as int) =~= decimal(second_millis));
        lemma_decimal_injective(first_millis, second_millis);
    }
}

/// Reads the system clock with `chrono::Utc::now` and gives the instant as
/// `DateTime::timestamp_millis` counts it, in milliseconds since the Unix
/// epoch. Nothing is claimed of the value: it is whatever the clock says.
/// Built for a browser, chrono reads the JavaScript clock, which may stand
/// before 1970 and then gives a negative instant. Built for any other
/// machine, `Utc::now` panics where the clock stands before 1970 or beyond
/// the years that chrono can hold. Either is the machine's state and no
/// argument, so no precondition can rule it out.
#[verifier::external_body]
fn utc_now_millis() -> i64 {
    chrono::Utc::now().timestamp_millis()
}

/// The label of the window made at `now_millis`.
pub fn enhanced_widget_label(now_millis: i64) -> (label: String)
    ensures
        label@ == window_label(now_millis as int),
{
    let mut label = String::from_str(LABEL_PREFIX);
    let instant = i64_to_decimal(now_millis);
    label.append(instant.as_str());
    label
}

/// The widget window made at `now_millis`.
pub fn enhanced_widget_window(now_millis: i64) -> (window: WindowConfig)
    ensures
        is_widget_window(window, now_millis as int),
{
    let size = Size { width: WIDGET_WIDTH, height: WIDGET_HEIGHT };
    WindowConfig {
        label: enhanced_widget_label(now_millis),
        url: String::from_str(WIDGET_URL),
        title: String::from_str(WIDGET_TITLE),
        inner_size: size,
        min_inner_size: size,
        max_inner_size: size,
        resizable: false,
        decorations: false,
        always_on_top: true,
        skip_taskbar: true,
        centered: true,
    }
}

/// Describes a new widget window, labelled with the present instant.
///
/// The instant is read from the system clock through chrono, which panics
/// where the clock stands before 1970 or beyond the years that chrono can
/// hold. With the instant at hand, [`enhanced_widget_window`] describes the
/// window without reading any clock.
pub fn create_enhanced_widget() -> (window: WindowConfig)
    ensures
        exists|now_millis: i64| is_widget_window(window, now_millis as int),
{
    enhanced_widget_window(utc_now_millis())
}

} // verus!
